//! Character and paragraph formatting resolved from plain style facts.

use vstd::prelude::*;

use crate::ctx::state::DocxCtx;
use crate::dom::{
    Indent, Jc, ParaProps, RunProps, Spacing, TextFill, Underline, VertAlign, rgb_eq,
};
use crate::length::{
    POINT, abs_to_twip, clamp_i32, clamp_i64, round_div, round_div_i128, sat32, sat64, twips,
};
use crate::props::{RunLook, UnderlineLook, copy_fill, opt_fill, opt_static};
use crate::text::{concat2, opt_str, str_eq};

verus! {

/// The default highlight color.
pub const DEFAULT_HIGHLIGHT: [u8; 3] = [0xFF, 0xFD, 0x11];

/// One segment of a dash pattern.
#[derive(Debug, Copy, Clone, PartialEq, Eq, Structural)]
pub enum DashLength {
    /// As long as the line is wide: a dot.
    LineWidth,
    Length(i64),
}

/// The stroke of an underline: its dash pattern and its own solid color, where
/// it has them.
#[derive(Debug)]
pub struct UnderlineStroke {
    pub dash: Option<Vec<DashLength>>,
    pub color: Option<[u8; 3]>,
}

/// The paint behind highlighted text.
#[derive(Debug, Copy, Clone, PartialEq, Eq)]
pub enum HighlightPaint {
    /// A solid color: its own channels, and those composited onto white.
    Solid { own: [u8; 3], composited: [u8; 3] },
    /// A gradient and its representative color.
    Gradient(Option<[u8; 3]>),
    /// Anything else, or none.
    Other,
}

/// A decoration of text.
#[derive(Debug)]
pub enum Deco {
    Underline(UnderlineStroke),
    Strikethrough,
    Highlight(HighlightPaint),
    Overline,
}

/// The paint of text.
#[derive(Debug)]
pub enum TextPaint {
    /// A solid color, and whether the text sets it itself.
    Solid { color: [u8; 3], explicit: bool },
    /// A gradient: a representative flat color and the fill, where they exist.
    Gradient { flat: Option<[u8; 3]>, fill: Option<TextFill> },
    Tiling,
}

/// The resolved style of text, as far as it matters to a run.
#[derive(Debug)]
pub struct TextStyle {
    pub size_half_pt: u32,
    pub paint: TextPaint,
    /// The first font family.
    pub font: Option<String>,
    pub weight: u16,
    /// What semantic strong emphasis adds to the weight.
    pub strong_delta: i64,
    /// Whether the font style is italic or oblique.
    pub slanted: bool,
    /// Whether semantic emphasis toggles the slant.
    pub emph: bool,
    pub shift: Option<VertAlign>,
    pub decos: Vec<Deco>,
    pub upper: bool,
    pub smallcaps: bool,
    pub tracking: i64,
    /// Downward baseline shift.
    pub baseline: i64,
    pub right_to_left: bool,
    pub lang: String,
    pub region: Option<String>,
}

/// Whether a dash pattern draws a dot at one of its drawn segments.
pub open spec fn draws_dot(array: Seq<DashLength>) -> bool {
    exists|i: int|
        0 <= i < array.len() && i % 2 == 0 && (#[trigger] array[i]) == DashLength::LineWidth
}

/// Whether a dash pattern draws a dash at one of its drawn segments.
pub open spec fn draws_dash(array: Seq<DashLength>) -> bool {
    exists|i: int| 0 <= i < array.len() && i % 2 == 0 && (#[trigger] array[i]) is Length
}

/// The underline style nearest to a dash pattern.
pub open spec fn dash_name(array: Seq<DashLength>) -> Seq<char> {
    if array.len() == 0 {
        "single"@
    } else if draws_dot(array) && draws_dash(array) {
        "dotDash"@
    } else if draws_dot(array) {
        "dotted"@
    } else {
        "dash"@
    }
}

/// Classifies the drawn segments of a dash pattern; every second segment is a
/// gap.
pub fn classify_dash(array: &Vec<DashLength>) -> (r: &'static str)
    ensures
        r@ == dash_name(array@),
{
    if array.len() == 0 {
        return "single";
    }
    let mut dot: bool = false;
    let mut dash: bool = false;
    let mut i: usize = 0;
    while i < array.len()
        invariant
            i <= array@.len(),
            dot == (exists|k: int|
                0 <= k < i && k % 2 == 0 && (#[trigger] array@[k]) == DashLength::LineWidth),
            dash == (exists|k: int|
                0 <= k < i && k % 2 == 0 && (#[trigger] array@[k]) is Length),
        decreases array@.len() - i,
    {
        if i % 2 == 0 {
            match array[i] {
                DashLength::LineWidth => {
                    dot = true;
                },
                DashLength::Length(_) => {
                    dash = true;
                },
            }
        }
        i = i + 1;
    }
    if dot && dash {
        "dotDash"
    } else if dot {
        "dotted"
    } else {
        "dash"
    }
}

/// What the underline of a stroke says.
pub open spec fn stroke_underline(stroke: UnderlineStroke) -> UnderlineLook {
    UnderlineLook {
        val: match stroke.dash {
            Some(array) => dash_name(array@),
            None => "single"@,
        },
        color: stroke.color,
    }
}

/// The underline of a stroke: the dash pattern gives the style, a solid paint
/// the color.
pub fn underline_from_stroke(stroke: &UnderlineStroke) -> (r: Underline)
    ensures
        r@ == stroke_underline(*stroke),
{
    let val: &'static str = match &stroke.dash {
        Some(array) => classify_dash(array),
        None => "single",
    };
    Underline { val, color: stroke.color }
}

/// The color of a highlight.
pub open spec fn highlight_color(paint: HighlightPaint) -> [u8; 3] {
    match paint {
        HighlightPaint::Solid { own, composited } => if own == DEFAULT_HIGHLIGHT {
            DEFAULT_HIGHLIGHT
        } else {
            composited
        },
        HighlightPaint::Gradient(Some(color)) => color,
        _ => DEFAULT_HIGHLIGHT,
    }
}

/// The color of a highlight. The default paint is translucent and stands for
/// itself; other paints are composited.
pub fn highlight_rgb(paint: HighlightPaint) -> (r: [u8; 3])
    ensures
        r == highlight_color(paint),
{
    match paint {
        HighlightPaint::Solid { own, composited } => if rgb_eq(own, DEFAULT_HIGHLIGHT) {
            DEFAULT_HIGHLIGHT
        } else {
            composited
        },
        HighlightPaint::Gradient(Some(color)) => color,
        _ => DEFAULT_HIGHLIGHT,
    }
}

/// The named highlight colors, in the order in which ties are broken.
pub open spec fn named_highlight(k: int) -> (Seq<char>, (int, int, int)) {
    if k == 0 {
        ("black"@, (0, 0, 0))
    } else if k == 1 {
        ("blue"@, (0, 0, 255))
    } else if k == 2 {
        ("cyan"@, (0, 255, 255))
    } else if k == 3 {
        ("darkBlue"@, (0, 0, 128))
    } else if k == 4 {
        ("darkCyan"@, (0, 128, 128))
    } else if k == 5 {
        ("darkGray"@, (128, 128, 128))
    } else if k == 6 {
        ("darkGreen"@, (0, 128, 0))
    } else if k == 7 {
        ("darkMagenta"@, (128, 0, 128))
    } else if k == 8 {
        ("darkRed"@, (128, 0, 0))
    } else if k == 9 {
        ("darkYellow"@, (128, 128, 0))
    } else if k == 10 {
        ("green"@, (0, 255, 0))
    } else if k == 11 {
        ("lightGray"@, (192, 192, 192))
    } else if k == 12 {
        ("magenta"@, (255, 0, 255))
    } else if k == 13 {
        ("red"@, (255, 0, 0))
    } else if k == 14 {
        ("white"@, (255, 255, 255))
    } else {
        ("yellow"@, (255, 255, 0))
    }
}

fn highlight_candidate(k: usize) -> (r: (&'static str, u8, u8, u8))
    requires
        k < 16,
    ensures
        named_highlight(k as int) == (r.0@, (r.1 as int, r.2 as int, r.3 as int)),
{
    match k {
        0 => ("black", 0, 0, 0),
        1 => ("blue", 0, 0, 255),
        2 => ("cyan", 0, 255, 255),
        3 => ("darkBlue", 0, 0, 128),
        4 => ("darkCyan", 0, 128, 128),
        5 => ("darkGray", 128, 128, 128),
        6 => ("darkGreen", 0, 128, 0),
        7 => ("darkMagenta", 128, 0, 128),
        8 => ("darkRed", 128, 0, 0),
        9 => ("darkYellow", 128, 128, 0),
        10 => ("green", 0, 255, 0),
        11 => ("lightGray", 192, 192, 192),
        12 => ("magenta", 255, 0, 255),
        13 => ("red", 255, 0, 0),
        14 => ("white", 255, 255, 255),
        _ => ("yellow", 255, 255, 0),
    }
}

/// The distance between two channel values.
pub open spec fn channel_distance(a: int, b: int) -> int {
    if a < b {
        b - a
    } else {
        a - b
    }
}

/// The largest channel distance of a color to a named highlight.
pub open spec fn highlight_distance(rgb: [u8; 3], k: int) -> int {
    let c = named_highlight(k).1;
    let r = channel_distance(rgb@[0] as int, c.0);
    let g = channel_distance(rgb@[1] as int, c.1);
    let b = channel_distance(rgb@[2] as int, c.2);
    if r >= g && r >= b {
        r
    } else if g >= b {
        g
    } else {
        b
    }
}

/// Whether `k` is the named highlight to use: near enough, and the first of the
/// nearest.
pub open spec fn is_nearest_highlight(rgb: [u8; 3], k: int) -> bool {
    &&& 0 <= k < 16
    &&& highlight_distance(rgb, k) <= 24
    &&& forall|j: int|
        0 <= j < 16 ==> highlight_distance(rgb, k) <= #[trigger] highlight_distance(rgb, j)
    &&& forall|j: int|
        0 <= j < k ==> highlight_distance(rgb, k) < #[trigger] highlight_distance(rgb, j)
}

fn abs_diff(a: u8, b: u8) -> (r: u8)
    ensures
        r == channel_distance(a as int, b as int),
{
    if a < b {
        b - a
    } else {
        a - b
    }
}

/// The name of the highlight nearest to a color, when one is near enough.
#[verifier::opaque]
pub open spec fn highlight_name(rgb: [u8; 3]) -> Option<Seq<char>> {
    if exists|k: int| is_nearest_highlight(rgb, k) {
        Some(named_highlight(choose|k: int| is_nearest_highlight(rgb, k)).0)
    } else {
        None
    }
}

pub proof fn lemma_nearest_unique(rgb: [u8; 3], a: int, b: int)
    requires
        is_nearest_highlight(rgb, a),
        is_nearest_highlight(rgb, b),
    ensures
        a == b,
{
    if a < b {
        assert(highlight_distance(rgb, b) < highlight_distance(rgb, a));
    } else if b < a {
        assert(highlight_distance(rgb, a) < highlight_distance(rgb, b));
    }
}

/// The named highlight nearest to a color; `None` when none is near enough.
pub fn word_highlight_name(rgb: [u8; 3]) -> (r: Option<&'static str>)
    ensures
        opt_static(r) == highlight_name(rgb),
{
    let mut best: Option<&'static str> = None;
    let mut least: u8 = 0;
    let ghost mut at: int = 0;
    let mut k: usize = 0;
    while k < 16
        invariant
            k <= 16,
            match best {
                None => forall|j: int| 0 <= j < k ==> #[trigger] highlight_distance(rgb, j) > 24,
                Some(name) => {
                    &&& 0 <= at < k
                    &&& name@ == named_highlight(at).0
                    &&& least == highlight_distance(rgb, at)
                    &&& least <= 24
                    &&& forall|j: int|
                        0 <= j < k ==> least <= #[trigger] highlight_distance(rgb, j)
                    &&& forall|j: int|
                        0 <= j < at ==> least < #[trigger] highlight_distance(rgb, j)
                },
            },
        decreases 16 - k,
    {
        let c: (&'static str, u8, u8, u8) = highlight_candidate(k);
        let dr: u8 = abs_diff(rgb[0], c.1);
        let dg: u8 = abs_diff(rgb[1], c.2);
        let db: u8 = abs_diff(rgb[2], c.3);
        let distance: u8 = if dr >= dg && dr >= db {
            dr
        } else if dg >= db {
            dg
        } else {
            db
        };
        assert(distance == highlight_distance(rgb, k as int));
        if distance <= 24 && (best.is_none() || distance < least) {
            best = Some(c.0);
            least = distance;
            proof {
                at = k as int;
            }
        }
        k = k + 1;
    }
    proof {
        reveal(highlight_name);
        if best is Some {
            assert(is_nearest_highlight(rgb, at));
            lemma_nearest_unique(rgb, at, choose|k: int| is_nearest_highlight(rgb, k));
        } else {
            assert forall|k: int| !is_nearest_highlight(rgb, k) by {
                if 0 <= k < 16 {
                    assert(highlight_distance(rgb, k) > 24);
                }
            }
        }
    }
    best
}

/// Formatting with a highlight: a named one when one is near enough, else
/// shading.
pub open spec fn highlighted(p: RunLook, rgb: [u8; 3]) -> RunLook {
    match highlight_name(rgb) {
        Some(name) => RunLook { highlight: Some(name), shd_fill: None, ..p },
        None => RunLook { highlight: None, shd_fill: Some(rgb), ..p },
    }
}

/// Highlights text: a named highlight when one is near enough, else shading.
pub fn apply_highlight(props: &mut RunProps, paint: HighlightPaint)
    ensures
        final(props)@ == highlighted(old(props)@, highlight_color(paint)),
{
    let rgb: [u8; 3] = highlight_rgb(paint);
    match word_highlight_name(rgb) {
        Some(name) => {
            props.highlight = Some(name);
            props.shd_fill = None;
        },
        None => {
            props.highlight = None;
            props.shd_fill = Some(rgb);
        },
    }
}

/// Formatting with one decoration.
pub open spec fn with_deco(p: RunLook, deco: Deco) -> RunLook {
    match deco {
        Deco::Underline(stroke) => RunLook { underline: Some(stroke_underline(stroke)), ..p },
        Deco::Strikethrough => RunLook { strike: true, ..p },
        Deco::Highlight(paint) => highlighted(p, highlight_color(paint)),
        Deco::Overline => p,
    }
}

/// Formatting with decorations, in their order.
pub open spec fn decorated(p: RunLook, decos: Seq<Deco>) -> RunLook
    decreases decos.len(),
{
    if decos.len() == 0 {
        p
    } else {
        with_deco(decorated(p, decos.drop_last()), decos.last())
    }
}

fn apply_deco(props: &mut RunProps, deco: &Deco)
    ensures
        final(props)@ == with_deco(old(props)@, *deco),
{
    match deco {
        Deco::Underline(stroke) => {
            props.underline = Some(underline_from_stroke(stroke));
        },
        Deco::Strikethrough => {
            props.strike = true;
        },
        Deco::Highlight(paint) => apply_highlight(props, *paint),
        Deco::Overline => {},
    }
}

fn apply_decos(props: &mut RunProps, decos: &Vec<Deco>)
    ensures
        final(props)@ == decorated(old(props)@, decos@),
{
    let ghost before = props@;
    let mut i: usize = 0;
    while i < decos.len()
        invariant
            i <= decos@.len(),
            before == old(props)@,
            props@ == decorated(before, decos@.take(i as int)),
        decreases decos@.len() - i,
    {
        assert(decos@.take(i + 1).drop_last() =~= decos@.take(i as int));
        apply_deco(props, &decos[i]);
        i = i + 1;
    }
    assert(decos@.take(i as int) =~= decos@);
}

/// The color and the fill of text.
pub open spec fn painted(p: RunLook, paint: TextPaint) -> RunLook {
    match paint {
        TextPaint::Solid { color, explicit } => RunLook {
            color: Some(color),
            preserve_color: p.preserve_color || (explicit && p.style == Some("Hyperlink"@)),
            ..p
        },
        TextPaint::Gradient { flat, fill } => RunLook {
            color: flat,
            text_fill: opt_fill(fill),
            ..p
        },
        TextPaint::Tiling => p,
    }
}

/// The language tag of text.
pub open spec fn language_tag(lang: Seq<char>, region: Option<String>) -> Seq<char> {
    match region {
        Some(r) => lang + "-"@ + r@,
        None => lang,
    }
}

/// A baseline shift in half-points; down becomes up.
pub open spec fn raised_half_points(baseline: i64) -> i32 {
    sat32(round_div(-2 * baseline, POINT as int))
}

/// Formatting with the face of the font.
pub open spec fn faced(p: RunLook, style: TextStyle) -> RunLook {
    let slanted = p.italic || style.slanted;
    RunLook {
        font: match style.font {
            Some(f) => Some(f@),
            None => p.font,
        },
        strong: p.strong || style.strong_delta > 0,
        bold: p.bold || style.weight + style.strong_delta >= 600,
        emphasis: p.emphasis || style.emph,
        italic: if style.emph {
            !slanted
        } else {
            slanted
        },
        vert_align: match style.shift {
            Some(shift) => Some(shift),
            None => p.vert_align,
        },
        ..p
    }
}

/// Formatting with case, spacing, reading order and language. A link that sets
/// its own color is not underlined by its style.
pub open spec fn finished(p: RunLook, style: TextStyle) -> RunLook {
    RunLook {
        underline: if p.preserve_color && p.underline is None {
            Some(UnderlineLook { val: "none"@, color: None })
        } else {
            p.underline
        },
        caps: p.caps || style.upper,
        smallcaps: p.smallcaps || style.smallcaps,
        tracking: if style.tracking != 0 {
            Some(twips(style.tracking as int))
        } else {
            p.tracking
        },
        position_half_pt: if style.baseline != 0 {
            Some(raised_half_points(style.baseline))
        } else {
            p.position_half_pt
        },
        rtl: p.rtl || style.right_to_left,
        cs: p.cs || style.right_to_left,
        lang: Some(language_tag(style.lang@, style.region)),
        ..p
    }
}

/// Formatting of text in the given style, inside the inherited formatting.
pub open spec fn resolved(inherited: RunLook, style: TextStyle, raw: bool) -> RunLook {
    let sized = RunLook {
        no_proof: inherited.no_proof || raw,
        size_half_pt: Some(style.size_half_pt),
        ..inherited
    };
    finished(decorated(faced(painted(sized, style.paint), style), style.decos@), style)
}

fn is_bold(style: &TextStyle) -> (r: bool)
    ensures
        r == (style.weight + style.strong_delta >= 600),
{
    style.weight as i128 + style.strong_delta as i128 >= 600
}

fn own_or(font: &Option<String>, inherited: Option<String>) -> (r: Option<String>)
    ensures
        opt_str(r) == (match *font {
            Some(f) => Some(f@),
            None => opt_str(inherited),
        }),
{
    match font {
        Some(font) => Some(font.clone()),
        None => inherited,
    }
}

fn apply_face(p: &mut RunProps, style: &TextStyle)
    ensures
        final(p)@ == faced(old(p)@, *style),
{
    let slanted: bool = p.italic || style.slanted;
    let bold: bool = p.bold || is_bold(style);
    let shift: Option<VertAlign> = if style.shift.is_some() {
        style.shift
    } else {
        p.vert_align
    };
    let inherited: Option<String> = p.font.take();
    p.font = own_or(&style.font, inherited);
    p.strong = p.strong || style.strong_delta > 0;
    p.bold = bold;
    p.emphasis = p.emphasis || style.emph;
    p.italic = slanted != style.emph;
    p.vert_align = shift;
}

fn finish(p: &mut RunProps, style: &TextStyle)
    ensures
        final(p)@ == finished(old(p)@, *style),
{
    let underline: Option<Underline> = if p.preserve_color && p.underline.is_none() {
        Some(Underline::none())
    } else {
        p.underline
    };
    let tracking: Option<i32> = if style.tracking != 0 {
        Some(abs_to_twip(style.tracking))
    } else {
        p.tracking
    };
    let position: Option<i32> = if style.baseline != 0 {
        Some(half_points_up(style.baseline))
    } else {
        p.position_half_pt
    };
    let lang: String = match &style.region {
        Some(region) => {
            let head: String = concat2(style.lang.as_str(), "-");
            concat2(head.as_str(), region.as_str())
        },
        None => style.lang.clone(),
    };
    p.underline = underline;
    p.caps = p.caps || style.upper;
    p.smallcaps = p.smallcaps || style.smallcaps;
    p.tracking = tracking;
    p.position_half_pt = position;
    p.rtl = p.rtl || style.right_to_left;
    p.cs = p.cs || style.right_to_left;
    p.lang = Some(lang);
}

fn apply_paint(p: &mut RunProps, paint: &TextPaint)
    ensures
        final(p)@ == painted(old(p)@, *paint),
{
    match paint {
        TextPaint::Solid { color, explicit } => {
            p.color = Some(*color);
            let linked: bool = match &p.style {
                Some(style) => str_eq(style.as_str(), "Hyperlink"),
                None => false,
            };
            if linked && *explicit {
                p.preserve_color = true;
            }
        },
        TextPaint::Gradient { flat, fill } => {
            p.color = *flat;
            p.text_fill = match fill {
                Some(f) => Some(copy_fill(f)),
                None => None,
            };
        },
        TextPaint::Tiling => {},
    }
}

fn half_points_up(baseline: i64) -> (r: i32)
    ensures
        r == raised_half_points(baseline),
{
    let n: i128 = -2 * (baseline as i128);
    clamp_i32(round_div_i128(n, POINT as i128))
}

impl DocxCtx {
    /// The formatting of text in the given style, inside the inherited
    /// formatting.
    pub fn resolve_text_props(&self, style: &TextStyle, inherited: RunProps) -> (r: RunProps)
        ensures
            r@ == resolved(inherited@, *style, self.raw_depth > 0),
    {
        let mut p: RunProps = inherited;
        if self.raw_depth > 0 {
            p.no_proof = true;
        }
        p.size_half_pt = Some(style.size_half_pt);
        apply_paint(&mut p, &style.paint);
        apply_face(&mut p, style);
        apply_decos(&mut p, &style.decos);
        finish(&mut p, style);
        p
    }

    /// The paragraph formatting of a paragraph in the given style.
    pub fn resolve_par_props(&self, style: &ParStyle) -> (r: ParaProps)
        ensures
            is_par_formatting(r, *style, self.line_numbering_active),
    {
        let mut p: ParaProps = ParaProps::default();
        if self.line_numbering_active && !style.line_numbers {
            p.suppress_line_numbers = true;
        }
        p.jc = resolve_par_jc(style.justify, style.align, style.right_to_left);
        if style.right_to_left {
            p.bidi = true;
        }
        let between: i32 = word_paragraph_boundary_spacing(style.spacing, style.leading);
        if between != 0 {
            p.typst_par_spacing_before = Some(between);
            p.typst_par_spacing_after = Some(between);
            let mut spacing: Spacing = Spacing::default();
            spacing.before = Some(between);
            spacing.after = Some(between);
            p.spacing = Some(spacing);
        }
        if leading_differs(style.leading, style.font_size) {
            let mut spacing: Spacing = match p.spacing {
                Some(s) => s,
                None => Spacing::default(),
            };
            spacing.line = Some(line_pitch(style.leading, style.frame_height));
            spacing.line_rule_auto = false;
            spacing.line_rule_at_least = true;
            p.spacing = Some(spacing);
        }
        let first: i32 = abs_to_twip(style.first_line_indent);
        if style.indent_all && first != 0 {
            let mut ind: Indent = Indent::default();
            ind.first_line = Some(first);
            p.ind = Some(ind);
        }
        let hang: i32 = abs_to_twip(style.hanging_indent);
        if hang != 0 {
            let mut ind: Indent = match p.ind {
                Some(i) => i,
                None => Indent::default(),
            };
            ind.hanging = Some(hang);
            p.ind = Some(ind);
        }
        p
    }
}

/// A physical horizontal alignment.
#[derive(Debug, Copy, Clone, PartialEq, Eq, Structural)]
pub enum FixedAlignment {
    /// Left.
    Start,
    Center,
    /// Right.
    End,
}

/// The resolved style of a paragraph, as far as it matters to its formatting.
#[derive(Debug, Copy, Clone, PartialEq, Eq, Structural)]
pub struct ParStyle {
    pub justify: bool,
    pub align: FixedAlignment,
    pub right_to_left: bool,
    /// Whether the paragraph itself has line numbers.
    pub line_numbers: bool,
    pub font_size: i64,
    pub leading: i64,
    /// The height of the text frame that leading is added to.
    pub frame_height: i64,
    /// The gap between paragraphs.
    pub spacing: i64,
    pub first_line_indent: i64,
    /// Whether the first paragraph is indented too.
    pub indent_all: bool,
    pub hanging_indent: i64,
}

/// The justification of an alignment. Alignments are physical, justification is
/// logical and flips with the reading order.
pub open spec fn align_jc(align: FixedAlignment, right_to_left: bool) -> Option<Jc> {
    match (align, right_to_left) {
        (FixedAlignment::Center, _) => Some(Jc::Center),
        (FixedAlignment::End, true) => Some(Jc::Start),
        (FixedAlignment::End, false) => Some(Jc::End),
        (FixedAlignment::Start, true) => Some(Jc::End),
        (FixedAlignment::Start, false) => None,
    }
}

/// The justification of an alignment; the default one is not stated.
pub fn resolve_align_jc(align: FixedAlignment, right_to_left: bool) -> (r: Option<Jc>)
    ensures
        r == align_jc(align, right_to_left),
{
    match align {
        FixedAlignment::Center => Some(Jc::Center),
        FixedAlignment::End => if right_to_left {
            Some(Jc::Start)
        } else {
            Some(Jc::End)
        },
        FixedAlignment::Start => if right_to_left {
            Some(Jc::End)
        } else {
            None
        },
    }
}

/// The justification of a paragraph; justified text wins over alignment.
pub fn resolve_par_jc(justify: bool, align: FixedAlignment, right_to_left: bool) -> (r: Option<Jc>)
    ensures
        r == (if justify {
            Some(Jc::Both)
        } else {
            align_jc(align, right_to_left)
        }),
{
    if justify {
        Some(Jc::Both)
    } else {
        resolve_align_jc(align, right_to_left)
    }
}

/// What is left of the paragraph gap beyond the leading, in twips.
pub open spec fn boundary_spacing(spacing: i64, leading: i64) -> i32 {
    let gap = twips(spacing as int) - twips(leading as int);
    if gap < 0 {
        0
    } else {
        sat32(gap)
    }
}

/// The space before a paragraph that follows another one: the paragraph gap
/// replaces leading, and leading is part of the line already.
pub fn word_paragraph_boundary_spacing(spacing: i64, leading: i64) -> (r: i32)
    ensures
        r == boundary_spacing(spacing, leading),
{
    let gap: i64 = abs_to_twip(spacing) as i64 - abs_to_twip(leading) as i64;
    if gap < 0 {
        0
    } else if gap > i32::MAX as i64 {
        i32::MAX
    } else {
        gap as i32
    }
}

/// Whether leading is not the default of 0.65 times the font size, up to a
/// thousandth of a point.
pub open spec fn unusual_leading(leading: i64, font_size: i64) -> bool {
    let off = 100 * leading - 65 * font_size;
    off > 100_000 || off < -100_000
}

fn leading_differs(leading: i64, font_size: i64) -> (r: bool)
    ensures
        r == unusual_leading(leading, font_size),
{
    let off: i128 = 100 * (leading as i128) - 65 * (font_size as i128);
    off > 100_000 || off < -100_000
}

/// The distance between baselines in twips.
pub open spec fn pitch(leading: i64, frame_height: i64) -> i32 {
    twips(sat64(leading + frame_height) as int)
}

fn line_pitch(leading: i64, frame_height: i64) -> (r: i32)
    ensures
        r == pitch(leading, frame_height),
{
    abs_to_twip(clamp_i64(leading as i128 + frame_height as i128))
}

/// Whether paragraph formatting is that of a paragraph in the given style.
pub open spec fn is_par_formatting(p: ParaProps, style: ParStyle, numbered_lines: bool) -> bool {
    let between = boundary_spacing(style.spacing, style.leading);
    let unusual = unusual_leading(style.leading, style.font_size);
    let first = twips(style.first_line_indent as int);
    let hang = twips(style.hanging_indent as int);
    &&& p.suppress_line_numbers == (numbered_lines && !style.line_numbers)
    &&& p.jc == (if style.justify {
        Some(Jc::Both)
    } else {
        align_jc(style.align, style.right_to_left)
    })
    &&& p.bidi == style.right_to_left
    &&& p.typst_par_spacing_before == (if between != 0 {
        Some(between)
    } else {
        None
    })
    &&& p.typst_par_spacing_after == p.typst_par_spacing_before
    &&& p.spacing == (if between != 0 || unusual {
        Some(
            Spacing {
                before: p.typst_par_spacing_before,
                after: p.typst_par_spacing_before,
                line: if unusual {
                    Some(pitch(style.leading, style.frame_height))
                } else {
                    None
                },
                line_rule_auto: false,
                line_rule_at_least: unusual,
            },
        )
    } else {
        None
    })
    &&& p.ind == (if (style.indent_all && first != 0) || hang != 0 {
        Some(
            Indent {
                left: None,
                right: None,
                first_line: if style.indent_all && first != 0 {
                    Some(first)
                } else {
                    None
                },
                hanging: if hang != 0 {
                    Some(hang)
                } else {
                    None
                },
            },
        )
    } else {
        None
    })
    &&& p.review_origin is None
    &&& p.style is None
    &&& !p.keep_next
    &&& !p.page_break_before
    &&& !p.keep_lines
    &&& p.num is None
    &&& !p.contextual_spacing
    &&& p.outline_lvl is None
    &&& p.tabs@.len() == 0
    &&& p.shd_fill is None
    &&& p.pbdr is None
}

/// The first-line indent of a paragraph that follows another one, where the
/// first paragraph is not indented.
pub fn consecutive_first_line_indent(style: &ParStyle) -> (r: Option<i32>)
    ensures
        r == (if !style.indent_all && twips(style.first_line_indent as int) != 0 {
            Some(twips(style.first_line_indent as int))
        } else {
            None
        }),
{
    if style.indent_all {
        return None;
    }
    let amount: i32 = abs_to_twip(style.first_line_indent);
    if amount != 0 {
        Some(amount)
    } else {
        None
    }
}

/// The height of the text frame.
pub open spec fn frame_height(follows_glyphs: bool, edges: Option<i64>, font_size: i64) -> i64 {
    match edges {
        Some(height) => if !follows_glyphs && height > 0 {
            height
        } else {
            font_size
        },
        None => font_size,
    }
}

/// The height of the text frame: between the edges that the first available font
/// gives, unless the edges follow the glyphs, no font is there, or the height is
/// not positive; then the font size.
pub fn text_frame_height(follows_glyphs: bool, edges: Option<i64>, font_size: i64) -> (r: i64)
    ensures
        r == (match edges {
            Some(height) => if !follows_glyphs && height > 0 {
                height
            } else {
                font_size
            },
            None => font_size,
        }),
        r == frame_height(follows_glyphs, edges, font_size),
{
    if follows_glyphs {
        return font_size;
    }
    match edges {
        Some(height) => if height > 0 {
            height
        } else {
            font_size
        },
        None => font_size,
    }
}

} // verus!
