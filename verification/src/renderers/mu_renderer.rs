//! The Micron markup renderer: a verified single-pass scanner that turns a
//! document into an ordered list of `(text, style)` segments.
//!
//! The meaning of every operation is fixed by the spec functions in
//! [`crate::renderers::parsers::micron_model`]; [`MicronRenderer::parse`]
//! is proved to return exactly [`spec_parse`] of its input.

use vstd::prelude::*;
use vstd::string::StrSliceExecFns;

use crate::text::{chars_of, collect_range, contains_char, range_eq_str, string_from_chars};

use crate::renderers::parsers::micron_constants::{
    default_link_color, default_text_color, section_color, Color, ASCII_ART_MARKER, COLOR_SCALE,
    COMMENT_MARKER, DEFAULT_DIVIDER_CHAR, DEFAULT_DIVIDER_WIDTH, DEPTH_RESET_MARKER,
    DIVIDER_MARKER, DIVIDER_WIDTH_MARKER, ESCAPE_CHAR, GRAY_CHANNEL_UNIT, HEX_CHANNEL_UNIT,
    LINK_END, LINK_SEPARATOR, LINK_START, SECTION_MARKER, STYLE_MARKER,
};
use crate::renderers::parsers::micron_model::{
    all_dec_digits, apply_basic_cmd, dec_value, first_index, flush_segment, is_basic_cmd,
    leading_run, lemma_dec_value_prefix, lemma_first_index, lemma_leading_run, lit_toggle,
    spec_classify, spec_decode_color, spec_dec_digit, spec_default_style, spec_divider,
    spec_hex_digit, spec_initial_state, spec_line, spec_lines, spec_link_style, spec_parse,
    spec_parse_usize, spec_render_lines, spec_scan, SpecLink, SpecSegment, SpecState, SpecStyle,
};

verus! {

/// Horizontal alignment of a segment; `Default` defers to the line's
/// default alignment.
#[derive(Debug, Clone, Copy, PartialEq, Eq, Structural)]
pub enum TextAlignment {
    Left,
    Center,
    Right,
    Default,
}

/// The style snapshot stored inside a [`Link`]: a [`MicronStyle`] without
/// the link field, so that links do not nest.
#[derive(Debug, Clone, Copy)]
pub struct LinkStyle {
    pub bold: bool,
    pub italic: bool,
    pub underline: bool,
    pub foreground: Option<Color>,
    pub background: Option<Color>,
    pub section_depth: u8,
    pub alignment: TextAlignment,
    pub selectable: bool,
}

/// A hyperlink extracted from a link span: its label, its target, and the
/// style that was current just before the link was emitted.  The caller
/// routes activations of the link; the renderer only packages it.
#[derive(Debug)]
pub struct Link {
    pub label: String,
    pub url: String,
    pub style: LinkStyle,
}

impl View for Link {
    type V = SpecLink;

    open spec fn view(&self) -> SpecLink {
        SpecLink { label: self.label@, url: self.url@, style: self.style }
    }
}

impl Clone for Link {
    fn clone(&self) -> (r: Self)
        ensures
            r == *self,
    {
        Link { label: self.label.clone(), url: self.url.clone(), style: self.style }
    }
}

/// A style snapshot carried by one emitted segment.
#[derive(Debug)]
pub struct MicronStyle {
    pub bold: bool,
    pub italic: bool,
    pub underline: bool,
    pub foreground: Option<Color>,
    pub background: Option<Color>,
    pub section_depth: u8,
    pub alignment: TextAlignment,
    pub selectable: bool,
    pub link: Option<Box<Link>>,
}

impl View for MicronStyle {
    type V = SpecStyle;

    open spec fn view(&self) -> SpecStyle {
        SpecStyle {
            bold: self.bold,
            italic: self.italic,
            underline: self.underline,
            foreground: self.foreground,
            background: self.background,
            section_depth: self.section_depth,
            alignment: self.alignment,
            selectable: self.selectable,
            link: match self.link {
                Some(b) => Some(b@),
                None => None,
            },
        }
    }
}

impl Clone for MicronStyle {
    fn clone(&self) -> (r: Self)
        ensures
            r@ == self@,
    {
        MicronStyle {
            bold: self.bold,
            italic: self.italic,
            underline: self.underline,
            foreground: self.foreground,
            background: self.background,
            section_depth: self.section_depth,
            alignment: self.alignment,
            selectable: self.selectable,
            link: match &self.link {
                Some(b) => Some(b.clone()),
                None => None,
            },
        }
    }
}

impl Default for MicronStyle {
    /// The default style: default text color, no decoration, body depth,
    /// selectable, no link.
    fn default() -> (r: Self)
        ensures
            r@ == spec_default_style(),
    {
        MicronStyle {
            bold: false,
            italic: false,
            underline: false,
            foreground: Some(default_text_color()),
            background: None,
            section_depth: 0,
            alignment: TextAlignment::Default,
            selectable: true,
            link: None,
        }
    }
}

/// The state threaded from line to line during one parse.
#[derive(Debug)]
pub struct ParserState {
    pub literal: bool,
    pub style: MicronStyle,
    pub default_align: TextAlignment,
}

impl View for ParserState {
    type V = SpecState;

    open spec fn view(&self) -> SpecState {
        SpecState { literal: self.literal, style: self.style@, default_align: self.default_align }
    }
}

impl Default for ParserState {
    fn default() -> (r: Self)
        ensures
            r@ == spec_initial_state(),
    {
        ParserState {
            literal: false,
            style: MicronStyle::default(),
            default_align: TextAlignment::Left,
        }
    }
}

/// Which renderer handled a document: styled Micron markup, or plain text.
#[derive(Debug, Clone, Copy, PartialEq, Eq, Structural)]
pub enum RendererType {
    Micron,
    Plain,
}

impl Default for RendererType {
    fn default() -> (r: Self)
        ensures
            r == RendererType::Plain,
    {
        RendererType::Plain
    }
}

// ---------------------------------------------------------------------------
// Character and string helpers
// ---------------------------------------------------------------------------
/// The value of a decimal digit.
fn dec_digit_val(c: char) -> (r: Option<u32>)
    ensures
        match r {
            Some(d) => spec_dec_digit(c) == Some(d as int),
            None => spec_dec_digit(c) is None,
        },
{
    if c >= '0' && c <= '9' {
        Some((c as u32) - ('0' as u32))
    } else {
        None
    }
}

/// The value of a hexadecimal digit, either case.
fn hex_digit_val(c: char) -> (r: Option<u32>)
    ensures
        match r {
            Some(d) => spec_hex_digit(c) == Some(d as int),
            None => spec_hex_digit(c) is None,
        },
{
    if c >= '0' && c <= '9' {
        Some((c as u32) - ('0' as u32))
    } else if c >= 'a' && c <= 'f' {
        Some(10 + (c as u32) - ('a' as u32))
    } else if c >= 'A' && c <= 'F' {
        Some(10 + (c as u32) - ('A' as u32))
    } else {
        None
    }
}

// ---------------------------------------------------------------------------
// Color decoding
// ---------------------------------------------------------------------------
/// Decode the color code held in `v[from..to]`.
fn decode_color_range(v: &Vec<char>, from: usize, to: usize) -> (c: Color)
    requires
        from <= to <= v@.len(),
    ensures
        c == spec_decode_color(v@.subrange(from as int, to as int)),
{
    let ghost code = v@.subrange(from as int, to as int);
    let n = to - from;
    if range_eq_str(v, from, to, "default") {
        return default_text_color();
    }
    if n >= 1 && v[from] == 'u' {
        proof {
            assert(code.skip(1) =~= v@.subrange(from as int + 1, to as int));
        }
        if range_eq_str(v, from + 1, to, "red") {
            return Color::from_percent(100, 0, 0);
        } else if range_eq_str(v, from + 1, to, "green") {
            return Color::from_percent(0, 100, 0);
        } else if range_eq_str(v, from + 1, to, "blue") {
            return Color::from_percent(0, 0, 100);
        } else {
            return default_text_color();
        }
    }
    if n == 3 && v[from] == 'g' {
        let h = dec_digit_val(v[from + 1]);
        let l = dec_digit_val(v[from + 2]);
        if h.is_some() && l.is_some() {
            let val = h.unwrap() * 10 + l.unwrap();
            return Color {
                r: val * GRAY_CHANNEL_UNIT,
                g: val * GRAY_CHANNEL_UNIT,
                b: val * GRAY_CHANNEL_UNIT,
                a: COLOR_SCALE,
            };
        } else {
            return Color { r: 0, g: 0, b: 0, a: COLOR_SCALE };
        }
    }
    if n == 3 {
        let r = hex_digit_val(v[from]);
        let g = hex_digit_val(v[from + 1]);
        let b = hex_digit_val(v[from + 2]);
        if r.is_some() && g.is_some() && b.is_some() {
            return Color {
                r: r.unwrap() * 17 * HEX_CHANNEL_UNIT,
                g: g.unwrap() * 17 * HEX_CHANNEL_UNIT,
                b: b.unwrap() * 17 * HEX_CHANNEL_UNIT,
                a: COLOR_SCALE,
            };
        } else {
            return default_text_color();
        }
    }
    if n == 6 {
        let r1 = hex_digit_val(v[from]);
        let r0 = hex_digit_val(v[from + 1]);
        let g1 = hex_digit_val(v[from + 2]);
        let g0 = hex_digit_val(v[from + 3]);
        let b1 = hex_digit_val(v[from + 4]);
        let b0 = hex_digit_val(v[from + 5]);
        if r1.is_some() && r0.is_some() && g1.is_some() && g0.is_some() && b1.is_some()
            && b0.is_some() {
            return Color {
                r: (r1.unwrap() * 16 + r0.unwrap()) * HEX_CHANNEL_UNIT,
                g: (g1.unwrap() * 16 + g0.unwrap()) * HEX_CHANNEL_UNIT,
                b: (b1.unwrap() * 16 + b0.unwrap()) * HEX_CHANNEL_UNIT,
                a: COLOR_SCALE,
            };
        } else {
            return default_text_color();
        }
    }
    default_text_color()
}

// ---------------------------------------------------------------------------
// Views of the exec output
// ---------------------------------------------------------------------------
/// The emitted segments as the model sees them.
pub open spec fn seg_views(segs: Seq<(String, MicronStyle)>) -> Seq<SpecSegment> {
    segs.map_values(|p: (String, MicronStyle)| (p.0@, p.1@))
}

/// The split lines as the model sees them.
pub open spec fn line_views(lines: Seq<Vec<char>>) -> Seq<Seq<char>> {
    lines.map_values(|l: Vec<char>| l@)
}

/// The one-character string holding a newline.
fn newline_string() -> (s: String)
    ensures
        s@ == seq!['\n'],
{
    let mut v: Vec<char> = Vec::new();
    v.push('\n');
    proof {
        assert(v@ =~= seq!['\n']);
    }
    string_from_chars(&v)
}

// ---------------------------------------------------------------------------
// Style commands
// ---------------------------------------------------------------------------
/// Apply a single-character style command, if it is one; returns whether
/// the character was a recognised command.
fn apply_cmd(style: &mut MicronStyle, cmd: char, dal: TextAlignment) -> (applied: bool)
    ensures
        applied == is_basic_cmd(cmd),
        applied ==> final(style)@ == apply_basic_cmd(old(style)@, cmd, dal),
        !applied ==> final(style)@ == old(style)@,
{
    if cmd == 'f' {
        style.foreground = None;
        true
    } else if cmd == 'b' {
        style.background = None;
        true
    } else if cmd == '!' {
        style.bold = !style.bold;
        true
    } else if cmd == '_' {
        style.underline = !style.underline;
        true
    } else if cmd == '*' {
        style.italic = !style.italic;
        true
    } else if cmd == 'c' {
        style.alignment = TextAlignment::Center;
        true
    } else if cmd == 'l' {
        style.alignment = TextAlignment::Left;
        true
    } else if cmd == 'r' {
        style.alignment = TextAlignment::Right;
        true
    } else if cmd == 'a' {
        style.alignment = dal;
        true
    } else if cmd == STYLE_MARKER {
        *style = MicronStyle::default();
        true
    } else {
        false
    }
}

// ---------------------------------------------------------------------------
// Number parsing
// ---------------------------------------------------------------------------
/// Parse the decimal number held in `v[from..to]`, if it is one that fits
/// in `usize`.
fn parse_usize_range(v: &Vec<char>, from: usize, to: usize) -> (r: Option<usize>)
    requires
        from <= to <= v@.len(),
    ensures
        match r {
            Some(w) => spec_parse_usize(v@.subrange(from as int, to as int)) == Some(w as int),
            None => spec_parse_usize(v@.subrange(from as int, to as int)) is None,
        },
{
    let ghost s = v@.subrange(from as int, to as int);
    if from == to {
        return None;
    }
    // First reject any non-digit.
    let mut i: usize = from;
    while i < to
        invariant
            from <= i <= to <= v@.len(),
            s == v@.subrange(from as int, to as int),
            forall|j: int| 0 <= j < i - from ==> #[trigger] spec_dec_digit(s[j]) is Some,
        decreases to - i,
    {
        if dec_digit_val(v[i]).is_none() {
            proof {
                assert(s[i - from] == v@[i as int]);
                assert(spec_dec_digit(s[i - from]) is None);
                assert(!all_dec_digits(s));
            }
            return None;
        }
        i = i + 1;
    }
    assert(all_dec_digits(s));
    // Then accumulate, watching for overflow.
    let mut acc: usize = 0;
    let mut i: usize = from;
    while i < to
        invariant
            from <= i <= to <= v@.len(),
            s == v@.subrange(from as int, to as int),
            all_dec_digits(s),
            acc as int == dec_value(s.take(i - from)),
        decreases to - i,
    {
        let d = match dec_digit_val(v[i]) {
            Some(d) => d,
            None => {
                proof {
                    assert(spec_dec_digit(s[i - from]) is Some);
                }
                0
            },
        };
        proof {
            assert(s.take(i + 1 - from).drop_last() =~= s.take(i - from));
            assert(s.take(i + 1 - from).last() == s[i - from]);
        }
        if acc > (usize::MAX - d as usize) / 10 {
            proof {
                lemma_dec_value_prefix(s, i + 1 - from);
            }
            return None;
        }
        acc = acc * 10 + d as usize;
        i = i + 1;
    }
    proof {
        assert(s.take(to - from) =~= s);
    }
    Some(acc)
}

// ---------------------------------------------------------------------------
// Line splitting
// ---------------------------------------------------------------------------
/// Split a document into its lines at every newline.
fn split_lines(doc: &Vec<char>) -> (lines: Vec<Vec<char>>)
    ensures
        line_views(lines@) == spec_lines(doc@),
{
    let mut lines: Vec<Vec<char>> = Vec::new();
    let mut prev: usize = 0;
    let mut i: usize = 0;
    proof {
        assert(doc@.skip(0) =~= doc@);
        assert(line_views(lines@) + spec_lines(doc@) =~= spec_lines(doc@));
    }
    while i < doc.len()
        invariant
            prev <= i <= doc@.len(),
            forall|j: int| prev <= j < i ==> doc@[j] != '\n',
            spec_lines(doc@) == line_views(lines@) + spec_lines(doc@.skip(prev as int)),
        decreases doc@.len() - i,
    {
        if doc[i] == '\n' {
            let line = collect_range(doc, prev, i);
            proof {
                let rest = doc@.skip(prev as int);
                lemma_first_index(rest, '\n');
                assert(rest[i - prev] == '\n');
                assert(forall|j: int| 0 <= j < i - prev ==> rest[j] != '\n');
                assert(first_index(rest, '\n') == i - prev);
                assert(rest.take(i - prev) =~= doc@.subrange(prev as int, i as int));
                assert(rest.skip(i - prev + 1) =~= doc@.skip(i + 1));
                assert(line_views(lines@.push(line)) =~= line_views(lines@) + seq![line@]);
                assert(spec_lines(doc@) =~= line_views(lines@.push(line)) + spec_lines(
                    doc@.skip(i + 1),
                ));
            }
            lines.push(line);
            prev = i + 1;
        }
        i = i + 1;
    }
    let line = collect_range(doc, prev, doc.len());
    proof {
        let rest = doc@.skip(prev as int);
        lemma_first_index(rest, '\n');
        assert(forall|j: int| 0 <= j < rest.len() ==> rest[j] != '\n');
        assert(first_index(rest, '\n') == rest.len());
        assert(line@ =~= rest);
        assert(line_views(lines@.push(line)) =~= line_views(lines@) + seq![line@]);
        assert(spec_lines(doc@) =~= line_views(lines@.push(line)));
    }
    lines.push(line);
    lines
}

// ---------------------------------------------------------------------------
// The inline scanner
// ---------------------------------------------------------------------------
/// Flush the accumulated plain text, if any, as one segment under the
/// current style; the buffer is empty afterwards.
fn flush_buf(segs: &mut Vec<(String, MicronStyle)>, buf: &mut Vec<char>, style: &MicronStyle)
    ensures
        seg_views(final(segs)@) == seg_views(old(segs)@) + flush_segment(old(buf)@, style@),
        final(buf)@ == Seq::<char>::empty(),
{
    if buf.len() > 0 {
        let text = string_from_chars(buf);
        let ghost pre = segs@;
        segs.push((text, style.clone()));
        proof {
            assert(seg_views(segs@) =~= seg_views(pre) + flush_segment(old(buf)@, style@));
        }
        buf.clear();
    } else {
        proof {
            assert(seg_views(segs@) =~= seg_views(segs@) + flush_segment(buf@, style@));
        }
    }
}

/// Handle one link span, `line[j]` being the link-start marker: collect the
/// span up to the closing marker (or the end of the line), split it at the
/// first separator into label and target, and emit the link's segment.
/// Returns the scan position after the span.
fn scan_link(
    line: &Vec<char>,
    j: usize,
    style: &MicronStyle,
    segs: &mut Vec<(String, MicronStyle)>,
) -> (jn: usize)
    requires
        j < line@.len(),
        line@[j as int] == LINK_START,
    ensures
        ({
            let rest = line@.skip(j as int).skip(1);
            let fi = first_index(rest, LINK_END);
            let body = rest.take(fi);
            let k2 = first_index(body, LINK_SEPARATOR);
            let label = if k2 < body.len() {
                body.take(k2)
            } else {
                body
            };
            let url = if k2 < body.len() {
                body.skip(k2 + 1)
            } else {
                Seq::<char>::empty()
            };
            &&& seg_views(final(segs)@) == seg_views(old(segs)@) + seq![
                (label, spec_link_style(style@, label, url)),
            ]
            &&& jn == j + 1 + fi + (if fi < rest.len() {
                1int
            } else {
                0int
            })
            &&& j < jn <= line@.len()
        }),
{
    let ghost rest = line@.skip(j as int).skip(1);
    proof {
        assert(rest =~= line@.skip(j + 1));
    }
    let n = line.len();
    let mut label: Vec<char> = Vec::new();
    let mut url: Vec<char> = Vec::new();
    let mut in_url = false;
    let mut k = j + 1;
    while k < n && line[k] != LINK_END
        invariant
            n == line@.len(),
            j + 1 <= k <= line@.len(),
            j < line@.len(),
            forall|m: int| j + 1 <= m < k ==> line@[m] != LINK_END,
            forall|m: int| 0 <= m < label@.len() ==> label@[m] != LINK_SEPARATOR,
            !in_url ==> label@ == line@.subrange(j + 1, k as int) && url@ == Seq::<char>::empty(),
            in_url ==> label@.len() + 1 <= k - (j + 1) && label@ == line@.subrange(
                j + 1,
                k as int,
            ).take(label@.len() as int) && line@.subrange(j + 1, k as int)[label@.len() as int]
                == LINK_SEPARATOR && url@ == line@.subrange(j + 1, k as int).skip(
                label@.len() as int + 1,
            ),
        decreases line@.len() - k,
    {
        let ghost processed = line@.subrange(j + 1, k as int);
        let ghost processed2 = line@.subrange(j + 1, k + 1 as int);
        proof {
            assert(processed2 =~= processed.push(line@[k as int]));
        }
        let lc = line[k];
        if !in_url && lc == LINK_SEPARATOR {
            in_url = true;
            proof {
                assert(label@ == processed);
                assert(processed2.take(label@.len() as int) =~= label@);
                assert(processed2[label@.len() as int] == LINK_SEPARATOR);
                assert(url@ =~= processed2.skip(label@.len() as int + 1));
            }
        } else if in_url {
            url.push(lc);
            proof {
                assert(processed2.take(label@.len() as int) =~= processed.take(
                    label@.len() as int,
                ));
                assert(url@ =~= processed2.skip(label@.len() as int + 1));
            }
        } else {
            label.push(lc);
            proof {
                assert(label@ =~= processed2);
            }
        }
        k = k + 1;
    }
    // Relate the collected label and target to the model's split.
    let ghost body = rest.take(first_index(rest, LINK_END));
    proof {
        lemma_first_index(rest, LINK_END);
        let fi = first_index(rest, LINK_END);
        assert forall|m: int| 0 <= m < k - (j + 1) implies rest[m] != LINK_END by {
            assert(rest[m] == line@[j + 1 + m]);
        }
        if k < line@.len() {
            assert(rest[k - (j + 1)] == line@[k as int]);
            assert(rest[k - (j + 1)] == LINK_END);
            assert(fi == k - (j + 1));
        } else {
            assert(fi == rest.len());
        }
        assert(body =~= line@.subrange(j + 1, k as int));
        lemma_first_index(body, LINK_SEPARATOR);
        let k2 = first_index(body, LINK_SEPARATOR);
        if in_url {
            let l = label@.len() as int;
            assert(body[l] == LINK_SEPARATOR);
            if k2 < l {
                assert(label@[k2] != LINK_SEPARATOR);
                assert(body.take(l)[k2] == body[k2]);
                assert(false);
            }
            if k2 > l {
                assert(body[l] != LINK_SEPARATOR);
                assert(false);
            }
            assert(k2 == l);
            assert(body.take(k2) =~= label@);
            assert(body.skip(k2 + 1) =~= url@);
        } else {
            assert(body == label@);
            if k2 < body.len() {
                assert(body[k2] == LINK_SEPARATOR);
                assert(false);
            }
        }
    }
    let label_text = string_from_chars(&label);
    let url_text = string_from_chars(&url);
    let snapshot = LinkStyle {
        bold: style.bold,
        italic: style.italic,
        underline: style.underline,
        foreground: style.foreground,
        background: style.background,
        section_depth: style.section_depth,
        alignment: style.alignment,
        selectable: style.selectable,
    };
    let mut lstyle = style.clone();
    lstyle.foreground = Some(default_link_color());
    lstyle.underline = true;
    lstyle.link = Some(Box::new(Link { label: label_text.clone(), url: url_text, style: snapshot }));
    proof {
        assert(lstyle@ == spec_link_style(style@, label@, url@));
    }
    let ghost pre = segs@;
    segs.push((label_text, lstyle));
    proof {
        assert(seg_views(segs@) =~= seg_views(pre) + seq![
            (label@, spec_link_style(style@, label@, url@)),
        ]);
    }
    if k < n {
        k + 1
    } else {
        k
    }
}

/// Handle one style command, `line[j]` being the style marker with the
/// accumulated text already flushed: apply the command to `style` (an
/// unrecognised command character lands in `buf` as literal text instead)
/// and return the scan position after it.
fn scan_command(
    line: &Vec<char>,
    j: usize,
    style: &mut MicronStyle,
    dal: TextAlignment,
    buf: &mut Vec<char>,
) -> (jn: usize)
    requires
        j < line@.len(),
        line@[j as int] == STYLE_MARKER,
        old(buf)@ == Seq::<char>::empty(),
    ensures
        j < jn <= line@.len(),
        spec_scan(line@.skip(j as int), old(style)@, dal, Seq::empty()) == spec_scan(
            line@.skip(jn as int),
            final(style)@,
            dal,
            final(buf)@,
        ),
{
    let ghost cs = line@.skip(j as int);
    let ghost style0 = style@;
    let n = line.len();
    proof {
        assert(cs[0] == STYLE_MARKER);
        assert(cs[0] != ESCAPE_CHAR && cs[0] != LINK_START);
    }
    if j + 1 >= n {
        proof {
            assert(cs.len() == 1);
            assert(cs.skip(1) =~= line@.skip(j + 1));
            let r = spec_scan(line@.skip(j + 1), style0, dal, Seq::empty());
            assert(flush_segment(Seq::<char>::empty(), style0) + r.0 =~= r.0);
        }
        j + 1
    } else {
        proof {
            assert(cs[1] == line@[j + 1]);
        }
        let cmd = line[j + 1];
        if cmd == 'F' || cmd == 'B' {
            let avail = n - (j + 2);
            let m = if avail < 3 {
                avail
            } else {
                3
            };
            proof {
                assert(cs.skip(2).take(m as int) =~= line@.subrange(j + 2, j + 2 + m));
                assert(cs.skip(2 + m) =~= line@.skip(j + 2 + m));
            }
            let color = decode_color_range(line, j + 2, j + 2 + m);
            if cmd == 'F' {
                style.foreground = Some(color);
            } else {
                style.background = Some(color);
            }
            proof {
                let r = spec_scan(line@.skip(j + 2 + m), style@, dal, Seq::empty());
                assert(flush_segment(Seq::<char>::empty(), style0) + r.0 =~= r.0);
            }
            j + 2 + m
        } else {
            proof {
                assert(cs.skip(2) =~= line@.skip(j + 2));
            }
            let applied = apply_cmd(style, cmd, dal);
            if !applied {
                buf.push(cmd);
                proof {
                    assert(buf@ =~= seq![cmd]);
                }
            }
            proof {
                let r = spec_scan(line@.skip(j + 2), style@, dal, buf@);
                assert(flush_segment(Seq::<char>::empty(), style0) + r.0 =~= r.0);
            }
            j + 2
        }
    }
}

/// Scan the characters of `line` from `start` on under `style`, appending
/// the emitted segments to `segs`; exactly the inline scan of the model.
#[verifier::rlimit(60)]
fn scan_line(
    line: &Vec<char>,
    start: usize,
    style: &mut MicronStyle,
    dal: TextAlignment,
    segs: &mut Vec<(String, MicronStyle)>,
)
    requires
        start <= line@.len(),
    ensures
        seg_views(final(segs)@) == seg_views(old(segs)@) + spec_scan(
            line@.skip(start as int),
            old(style)@,
            dal,
            Seq::empty(),
        ).0,
        final(style)@ == spec_scan(line@.skip(start as int), old(style)@, dal, Seq::empty()).1,
{
    let ghost target = spec_scan(line@.skip(start as int), old(style)@, dal, Seq::empty());
    let ghost segs0 = old(segs)@;
    let ghost mut emitted: Seq<SpecSegment> = Seq::empty();
    let mut buf: Vec<char> = Vec::new();
    let mut j: usize = start;
    proof {
        assert(seg_views(segs@) =~= seg_views(segs0) + emitted);
        assert(emitted + target.0 =~= target.0);
    }
    while j < line.len()
        invariant
            start <= j <= line@.len(),
            seg_views(segs@) == seg_views(segs0) + emitted,
            target.0 == emitted + spec_scan(line@.skip(j as int), style@, dal, buf@).0,
            target.1 == spec_scan(line@.skip(j as int), style@, dal, buf@).1,
        decreases line@.len() - j,
    {
        let ghost cs = line@.skip(j as int);
        let ghost style_in = style@;
        let ghost buf_in = buf@;
        proof {
            assert(cs.len() == line@.len() - j);
            assert(cs[0] == line@[j as int]);
        }
        let c = line[j];
        if c == ESCAPE_CHAR {
            if j + 1 < line.len() {
                proof {
                    assert(cs[1] == line@[j + 1]);
                    assert(cs.skip(2) =~= line@.skip(j + 2));
                }
                buf.push(line[j + 1]);
                j = j + 2;
            } else {
                proof {
                    assert(cs.skip(1) =~= line@.skip(j + 1));
                }
                j = j + 1;
            }
        } else if c == LINK_START {
            flush_buf(segs, &mut buf, style);
            proof {
                emitted = emitted + flush_segment(buf_in, style_in);
                assert(seg_views(segs@) =~= seg_views(segs0) + emitted);
            }
            let ghost rest = cs.skip(1);
            let ghost fi = first_index(rest, LINK_END);
            let ghost body = rest.take(fi);
            let ghost k2 = first_index(body, LINK_SEPARATOR);
            let ghost label = if k2 < body.len() {
                body.take(k2)
            } else {
                body
            };
            let ghost url = if k2 < body.len() {
                body.skip(k2 + 1)
            } else {
                Seq::<char>::empty()
            };
            let jn = scan_link(line, j, style, segs);
            proof {
                lemma_first_index(rest, LINK_END);
                emitted = emitted + seq![(label, spec_link_style(style_in, label, url))];
                assert(seg_views(segs@) =~= seg_views(segs0) + emitted);
                assert(cs.skip(
                    if fi < rest.len() {
                        2 + fi
                    } else {
                        1 + fi
                    },
                ) =~= line@.skip(jn as int));
                assert(target.0 =~= emitted + spec_scan(line@.skip(jn as int), style@, dal, buf@).0);
            }
            j = jn;
        } else if c == STYLE_MARKER {
            flush_buf(segs, &mut buf, style);
            proof {
                emitted = emitted + flush_segment(buf_in, style_in);
                assert(seg_views(segs@) =~= seg_views(segs0) + emitted);
            }
            let jn = scan_command(line, j, style, dal, &mut buf);
            proof {
                let after = spec_scan(line@.skip(jn as int), style@, dal, buf@);
                assert(flush_segment(Seq::<char>::empty(), style_in) + after.0 =~= after.0);
                assert(target.0 =~= emitted + after.0);
            }
            j = jn;
        } else {
            proof {
                assert(cs.skip(1) =~= line@.skip(j + 1));
            }
            buf.push(c);
            j = j + 1;
        }
    }
    // End of line: flush the remainder, with a trailing newline, always.
    proof {
        assert(line@.skip(j as int) =~= Seq::<char>::empty());
    }
    buf.push('\n');
    let text = string_from_chars(&buf);
    let ghost pre = segs@;
    segs.push((text, style.clone()));
    proof {
        assert(seg_views(segs@) =~= seg_views(pre) + seq![(buf@, style@)]);
        assert(seg_views(segs@) =~= seg_views(segs0) + target.0);
    }
}

// ---------------------------------------------------------------------------
// Line handling
// ---------------------------------------------------------------------------
/// Process one document line under `state`, appending the emitted segments
/// to `segs`; exactly the line handling of the model, including its
/// priority order of line classifiers.
fn process_line(line: &Vec<char>, state: &mut ParserState, segs: &mut Vec<(String, MicronStyle)>)
    ensures
        seg_views(final(segs)@) == seg_views(old(segs)@) + spec_line(line@, old(state)@).0,
        final(state)@ == spec_line(line@, old(state)@).1,
{
    let n = line.len();
    // The literal-mode toggle line, exactly.
    if n == 2 && line[0] == STYLE_MARKER && line[1] == '=' {
        proof {
            assert(line@ =~= lit_toggle());
            assert(seg_views(segs@) =~= seg_views(segs@) + Seq::<SpecSegment>::empty());
        }
        state.literal = !state.literal;
        return ;
    }
    proof {
        if line@.len() == 2 {
            assert(line@ != lit_toggle());
        } else {
            assert(line@ != lit_toggle());
        }
    }
    // Literal mode: every line is passed through verbatim.
    if state.literal {
        let mut text = collect_range(line, 0, n);
        text.push('\n');
        proof {
            assert(text@ =~= line@.push('\n'));
        }
        let text = string_from_chars(&text);
        let ghost pre = segs@;
        segs.push((text, state.style.clone()));
        proof {
            assert(seg_views(segs@) =~= seg_views(pre) + spec_line(line@, old(state)@).0);
        }
        return ;
    }
    // Body text starts every line at section depth zero.
    state.style.section_depth = 0;
    let ghost st0 = state@;
    if n == 0 {
        let text = newline_string();
        let ghost pre = segs@;
        segs.push((text, state.style.clone()));
        proof {
            assert(seg_views(segs@) =~= seg_views(pre) + spec_line(line@, old(state)@).0);
        }
        return ;
    }
    let c0 = line[0];
    // Comment lines are discarded whole.
    if c0 == COMMENT_MARKER {
        proof {
            assert(seg_views(segs@) =~= seg_views(segs@) + Seq::<SpecSegment>::empty());
        }
        return ;
    }
    // A leading depth-reset marker is consumed; the rest is scanned inline.
    if c0 == DEPTH_RESET_MARKER {
        let dal = state.default_align;
        scan_line(line, 1, &mut state.style, dal, segs);
        return ;
    }
    // Section headings: a run of section markers gives the depth; the line
    // is scanned under a temporary heading style, then the style reverts.
    if c0 == SECTION_MARKER {
        let mut d: usize = 0;
        while d < n && line[d] == SECTION_MARKER
            invariant
                n == line@.len(),
                d <= n,
                forall|m: int| 0 <= m < d ==> line@[m] == SECTION_MARKER,
            decreases n - d,
        {
            d = d + 1;
        }
        proof {
            lemma_leading_run(line@, SECTION_MARKER);
            let r = leading_run(line@, SECTION_MARKER);
            if r < d {
                assert(line@[r] == SECTION_MARKER);
                assert(false);
            }
            if r > d {
                assert(d < line@.len());
                assert(line@[d as int] == SECTION_MARKER);
                assert(false);
            }
        }
        let idx = if d < 4 {
            d - 1
        } else {
            3
        };
        let saved = state.style.clone();
        state.style.section_depth = (d % 256) as u8;
        state.style.background = Some(section_color(idx));
        let dal = state.default_align;
        let ghost pre = segs@;
        scan_line(line, d, &mut state.style, dal, segs);
        state.style = saved;
        proof {
            assert(state@ == st0);
            assert(seg_views(segs@) =~= seg_views(pre) + spec_line(line@, old(state)@).0);
        }
        return ;
    }
    // Divider lines: a repeated divider character, no inline scan.
    if c0 == DIVIDER_MARKER {
        let ch = if n > 1 {
            let c1 = line[1];
            if c1 != DIVIDER_WIDTH_MARKER {
                c1
            } else {
                DEFAULT_DIVIDER_CHAR
            }
        } else {
            DEFAULT_DIVIDER_CHAR
        };
        let width = if n > 2 {
            proof {
                assert(line@.subrange(2, n as int) =~= line@.skip(2));
            }
            match parse_usize_range(line, 2, n) {
                Some(w) => w,
                None => DEFAULT_DIVIDER_WIDTH,
            }
        } else {
            DEFAULT_DIVIDER_WIDTH
        };
        let mut text: Vec<char> = Vec::new();
        let mut i: usize = 0;
        while i < width
            invariant
                i <= width,
                text@ == Seq::new(i as nat, |m: int| ch),
            decreases width - i,
        {
            text.push(ch);
            i = i + 1;
            proof {
                assert(text@ =~= Seq::new(i as nat, |m: int| ch));
            }
        }
        text.push('\n');
        proof {
            assert(text@ =~= spec_divider(line@));
        }
        let text = string_from_chars(&text);
        let ghost pre = segs@;
        segs.push((text, state.style.clone()));
        proof {
            assert(seg_views(segs@) =~= seg_views(pre) + spec_line(line@, old(state)@).0);
        }
        return ;
    }
    // Verbatim lines: the rest of the line is passed through unchanged.
    if c0 == ASCII_ART_MARKER {
        let mut text = collect_range(line, 1, n);
        text.push('\n');
        proof {
            assert(text@ =~= line@.skip(1).push('\n'));
        }
        let text = string_from_chars(&text);
        let ghost pre = segs@;
        segs.push((text, state.style.clone()));
        proof {
            assert(seg_views(segs@) =~= seg_views(pre) + spec_line(line@, old(state)@).0);
        }
        return ;
    }
    // An ordinary line: scan it inline from the start.
    let dal = state.default_align;
    proof {
        assert(line@.skip(0) =~= line@);
    }
    scan_line(line, 0, &mut state.style, dal, segs);
}

/// Decode a textual color code, as used by the `F` and `B` style commands.
/// Never fails: unknown or malformed codes degrade to the default text
/// color (grayscale codes with bad digits degrade to black).
pub fn decode_color(code: &str) -> (c: Color)
    ensures
        c == spec_decode_color(code@),
{
    let cs = chars_of(code);
    proof {
        assert(cs@.subrange(0, cs@.len() as int) =~= code@);
    }
    decode_color_range(&cs, 0, cs.len())
}

// ---------------------------------------------------------------------------
// The renderer
// ---------------------------------------------------------------------------
/// Which renderer a document selects: Micron exactly when the style marker
/// occurs in it; pure and without side effects.
pub fn classify(document: &str) -> (r: RendererType)
    ensures
        r == spec_classify(document@),
{
    let cs = chars_of(document);
    if contains_char(&cs, STYLE_MARKER) {
        RendererType::Micron
    } else {
        RendererType::Plain
    }
}

/// Whether an address names a node page.
pub open spec fn spec_is_node_path(u: Seq<char>) -> bool {
    (u.len() >= 3 && u.skip(u.len() - 3) == ".mu"@) || (u.len() >= 2 && u.take(2) == ":/"@)
}

/// Whether an address holds the `:/` destination separator anywhere.
pub open spec fn spec_has_node_sep(u: Seq<char>) -> bool {
    exists|i: int|
        #![trigger u[i]]
        0 <= i && i + 2 <= u.len() && u[i] == ':' && u[i + 1] == '/'
}

/// The address a link target resolves to: a leading `:/` is stripped, a
/// target without any `:/` is a page path under `page/`, and anything
/// else is kept as given.
pub open spec fn spec_format_node_url(u: Seq<char>) -> Seq<char> {
    if u.len() >= 2 && u.take(2) == ":/"@ {
        u.skip(2)
    } else if !spec_has_node_sep(u) {
        "page/"@ + u
    } else {
        u
    }
}

/// The Micron renderer: parses documents and remembers which renderer the
/// last document selected.
pub struct MicronRenderer {
    current_style: MicronStyle,
    renderer_type: RendererType,
}

impl MicronRenderer {
    /// The renderer classification recorded by the last parse.
    pub closed spec fn spec_renderer_type(&self) -> RendererType {
        self.renderer_type
    }

    /// The renderer's resident style.
    pub closed spec fn spec_current_style(&self) -> SpecStyle {
        self.current_style@
    }

    pub fn new() -> (r: Self)
        ensures
            r.spec_current_style() == spec_default_style(),
            r.spec_renderer_type() == RendererType::Plain,
    {
        MicronRenderer {
            current_style: MicronStyle::default(),
            renderer_type: RendererType::default(),
        }
    }

    pub fn get_renderer_type(&self) -> (r: RendererType)
        ensures
            r == self.spec_renderer_type(),
    {
        self.renderer_type
    }

    /// Parse a document into its styled segments.  Total: returns exactly
    /// the model's segments for every input, and records the renderer
    /// classification for [`Self::get_renderer_type`].
    pub fn parse(&mut self, content: &str) -> (r: Vec<(String, MicronStyle)>)
        ensures
            seg_views(r@) == spec_parse(content@),
            final(self).spec_renderer_type() == spec_classify(content@),
            final(self).spec_current_style() == old(self).spec_current_style(),
    {
        let cs = chars_of(content);
        let has_marker = contains_char(&cs, STYLE_MARKER);
        if has_marker {
            self.renderer_type = RendererType::Micron;
        } else {
            self.renderer_type = RendererType::Plain;
        }
        if !has_marker {
            let mut r: Vec<(String, MicronStyle)> = Vec::new();
            if cs.len() == 0 {
                proof {
                    assert(seg_views(r@) =~= spec_parse(content@));
                }
                return r;
            }
            r.push((content.to_owned(), MicronStyle::default()));
            proof {
                assert(seg_views(r@) =~= spec_parse(content@));
            }
            return r;
        }
        let lines = split_lines(&cs);
        let ghost lviews = line_views(lines@);
        let mut state = ParserState::default();
        let mut segs: Vec<(String, MicronStyle)> = Vec::new();
        let mut i: usize = 0;
        proof {
            assert(lviews.skip(0) =~= lviews);
            assert(seg_views(segs@) + spec_render_lines(lviews, spec_initial_state())
                =~= spec_render_lines(lviews, spec_initial_state()));
        }
        while i < lines.len()
            invariant
                i <= lines@.len(),
                lviews == line_views(lines@),
                seg_views(segs@) + spec_render_lines(lviews.skip(i as int), state@)
                    == spec_render_lines(lviews, spec_initial_state()),
            decreases lines@.len() - i,
        {
            let ghost pre = segs@;
            let ghost st_in = state@;
            process_line(&lines[i], &mut state, &mut segs);
            proof {
                assert(lviews[i as int] == lines@[i as int]@);
                assert(lviews.skip(i as int).len() > 0);
                assert(lviews.skip(i as int)[0] == lviews[i as int]);
                assert(lviews.skip(i as int).skip(1) =~= lviews.skip(i + 1));
                assert(seg_views(segs@) + spec_render_lines(lviews.skip(i + 1), state@)
                    =~= spec_render_lines(lviews, spec_initial_state()));
            }
            i = i + 1;
        }
        proof {
            assert(lviews.skip(lines@.len() as int) =~= Seq::<Seq<char>>::empty());
            assert(seg_views(segs@) =~= spec_render_lines(lviews, spec_initial_state()));
            assert(seg_views(segs@) =~= spec_parse(content@));
        }
        segs
    }

    /// Whether an address names a node page: it ends in `.mu` or begins
    /// with the `:/` separator.
    pub fn is_node_path(url: &str) -> (b: bool)
        ensures
            b == spec_is_node_path(url@),
    {
        let cs = chars_of(url);
        let n = cs.len();
        let ends_mu = n >= 3 && cs[n - 3] == '.' && cs[n - 2] == 'm' && cs[n - 1] == 'u';
        proof {
            reveal_strlit(".mu");
            if ends_mu {
                assert(cs@.skip(n - 3) =~= ".mu"@);
            } else if n >= 3 {
                assert(cs@.skip(n - 3).len() == 3);
                if cs@.skip(n - 3) == ".mu"@ {
                    assert(cs@.skip(n - 3)[0] == '.' && cs@.skip(n - 3)[1] == 'm' && cs@.skip(
                        n - 3,
                    )[2] == 'u');
                    assert(false);
                }
            }
        }
        if ends_mu {
            return true;
        }
        starts_with_node_sep(&cs)
    }

    /// Resolve a link target to the address to fetch.
    pub fn format_node_url(url: &str) -> (r: String)
        ensures
            r@ == spec_format_node_url(url@),
    {
        let cs = chars_of(url);
        let n = cs.len();
        if starts_with_node_sep(&cs) {
            let tail = collect_range(&cs, 2, n);
            return string_from_chars(&tail);
        }
        if !has_node_sep(&cs) {
            let mut out = chars_of("page/");
            let mut rest = collect_range(&cs, 0, n);
            proof {
                assert(rest@ =~= cs@);
            }
            out.append(&mut rest);
            return string_from_chars(&out);
        }
        url.to_owned()
    }
}

/// Whether the characters begin with the `:/` separator.
fn starts_with_node_sep(cs: &Vec<char>) -> (b: bool)
    ensures
        b == (cs@.len() >= 2 && cs@.take(2) == ":/"@),
{
    proof {
        reveal_strlit(":/");
    }
    if cs.len() >= 2 && cs[0] == ':' && cs[1] == '/' {
        proof {
            assert(cs@.take(2) =~= ":/"@);
        }
        true
    } else {
        proof {
            if cs@.len() >= 2 && cs@.take(2) == ":/"@ {
                assert(cs@.take(2)[0] == ':' && cs@.take(2)[1] == '/');
                assert(false);
            }
        }
        false
    }
}

/// Whether the characters hold the `:/` separator anywhere.
fn has_node_sep(cs: &Vec<char>) -> (b: bool)
    ensures
        b == spec_has_node_sep(cs@),
{
    if cs.len() < 2 {
        return false;
    }
    let mut i: usize = 0;
    while i < cs.len() - 1
        invariant
            cs@.len() >= 2,
            i + 1 <= cs@.len(),
            forall|m: int| #![trigger cs@[m]] 0 <= m < i ==> !(cs@[m] == ':' && cs@[m + 1] == '/'),
        decreases cs@.len() - i,
    {
        if cs[i] == ':' && cs[i + 1] == '/' {
            proof {
                assert(spec_has_node_sep(cs@));
            }
            return true;
        }
        i = i + 1;
    }
    proof {
        assert forall|m: int| #![trigger cs@[m]] 0 <= m && m + 2 <= cs@.len() implies !(cs@[m]
            == ':' && cs@[m + 1] == '/') by {}
    }
    false
}

/// The links a list of segments carries, in emission order.
pub open spec fn spec_links(segs: Seq<SpecSegment>) -> Seq<SpecLink>
    decreases segs.len(),
{
    if segs.len() == 0 {
        Seq::empty()
    } else {
        spec_links(segs.drop_last()) + (match segs.last().1.link {
            Some(l) => seq![l],
            None => Seq::empty(),
        })
    }
}

/// The flat link index of a segment list: every link the segments carry,
/// in order, without re-scanning the document.
pub fn collect_links(segs: &Vec<(String, MicronStyle)>) -> (r: Vec<Link>)
    ensures
        r@.map_values(|l: Link| l@) == spec_links(seg_views(segs@)),
{
    let ghost sv = seg_views(segs@);
    let mut r: Vec<Link> = Vec::new();
    let mut i: usize = 0;
    proof {
        assert(r@.map_values(|l: Link| l@) =~= spec_links(sv.take(0)));
    }
    while i < segs.len()
        invariant
            i <= segs@.len(),
            sv == seg_views(segs@),
            r@.map_values(|l: Link| l@) == spec_links(sv.take(i as int)),
        decreases segs@.len() - i,
    {
        proof {
            assert(sv.take(i + 1).drop_last() =~= sv.take(i as int));
            assert(sv.take(i + 1).last() == sv[i as int]);
            assert(sv[i as int] == (segs@[i as int].0@, segs@[i as int].1@));
        }
        match &segs[i].1.link {
            Some(b) => {
                let link = (**b).clone();
                r.push(link);
                proof {
                    assert(r@.map_values(|l: Link| l@) =~= spec_links(sv.take(i + 1)));
                }
            },
            None => {
                proof {
                    assert(r@.map_values(|l: Link| l@) =~= spec_links(sv.take(i + 1)));
                }
            },
        }
        i = i + 1;
    }
    proof {
        assert(sv.take(segs@.len() as int) =~= sv);
    }
    r
}

} // verus!
