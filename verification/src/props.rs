//! What character formatting says, as plain values, with comparison and copying.

use vstd::prelude::*;

use crate::dom::{
    Block, GradientStop, Indent, Jc, ParaBorder, ParaBorders, ParaChild, ParaProps, ReviewOrigin,
    Run, RunProps, Spacing, TabStop, TextFill, Underline, VertAlign, opt_rgb_eq, rgb_eq,
};
use crate::text::{opt_str, opt_str_eq, str_eq};

verus! {

/// What a gradient text fill says.
pub enum TextFillLook {
    Linear { angle_60k: i32, stops: Seq<GradientStop> },
    Radial { stops: Seq<GradientStop>, focal_center_100k: [i32; 2], focal_radius_100k: i32 },
}

impl View for TextFill {
    type V = TextFillLook;

    open spec fn view(&self) -> TextFillLook {
        match *self {
            TextFill::Linear { angle_60k, stops } => TextFillLook::Linear {
                angle_60k,
                stops: stops@,
            },
            TextFill::Radial { stops, focal_center_100k, focal_radius_100k } => {
                TextFillLook::Radial { stops: stops@, focal_center_100k, focal_radius_100k }
            },
        }
    }
}

/// What an underline says.
pub struct UnderlineLook {
    pub val: Seq<char>,
    pub color: Option<[u8; 3]>,
}

impl View for Underline {
    type V = UnderlineLook;

    open spec fn view(&self) -> UnderlineLook {
        UnderlineLook { val: self.val@, color: self.color }
    }
}

/// What one side of a border says.
pub struct BorderLook {
    pub style: Seq<char>,
    pub sz: u32,
    pub space: u32,
    pub color: [u8; 3],
}

impl View for ParaBorder {
    type V = BorderLook;

    open spec fn view(&self) -> BorderLook {
        BorderLook { style: self.style@, sz: self.sz, space: self.space, color: self.color }
    }
}

/// What character formatting says.
pub struct RunLook {
    pub review_origin: Option<ReviewOrigin>,
    pub style: Option<Seq<char>>,
    pub font: Option<Seq<char>>,
    pub strong: bool,
    pub bold: bool,
    pub emphasis: bool,
    pub italic: bool,
    pub caps: bool,
    pub smallcaps: bool,
    pub strike: bool,
    pub no_proof: bool,
    pub color: Option<[u8; 3]>,
    pub text_fill: Option<TextFillLook>,
    pub preserve_color: bool,
    pub tracking: Option<i32>,
    pub position_half_pt: Option<i32>,
    pub size_half_pt: Option<u32>,
    pub highlight: Option<Seq<char>>,
    pub shd_fill: Option<[u8; 3]>,
    pub bdr: Option<BorderLook>,
    pub underline: Option<UnderlineLook>,
    pub vanish: bool,
    pub vert_align: Option<VertAlign>,
    pub rtl: bool,
    pub cs: bool,
    pub lang: Option<Seq<char>>,
}

/// The text of an optional static string.
pub open spec fn opt_static(s: Option<&'static str>) -> Option<Seq<char>> {
    match s {
        Some(t) => Some(t@),
        None => None,
    }
}

/// What an optional text fill says.
pub open spec fn opt_fill(s: Option<TextFill>) -> Option<TextFillLook> {
    match s {
        Some(t) => Some(t@),
        None => None,
    }
}

/// What an optional border says.
pub open spec fn opt_border(s: Option<ParaBorder>) -> Option<BorderLook> {
    match s {
        Some(t) => Some(t@),
        None => None,
    }
}

/// What an optional underline says.
pub open spec fn opt_underline(s: Option<Underline>) -> Option<UnderlineLook> {
    match s {
        Some(t) => Some(t@),
        None => None,
    }
}

impl View for RunProps {
    type V = RunLook;

    open spec fn view(&self) -> RunLook {
        RunLook {
            review_origin: self.review_origin,
            style: opt_str(self.style),
            font: opt_str(self.font),
            strong: self.strong,
            bold: self.bold,
            emphasis: self.emphasis,
            italic: self.italic,
            caps: self.caps,
            smallcaps: self.smallcaps,
            strike: self.strike,
            no_proof: self.no_proof,
            color: self.color,
            text_fill: opt_fill(self.text_fill),
            preserve_color: self.preserve_color,
            tracking: self.tracking,
            position_half_pt: self.position_half_pt,
            size_half_pt: self.size_half_pt,
            highlight: opt_static(self.highlight),
            shd_fill: self.shd_fill,
            bdr: opt_border(self.bdr),
            underline: opt_underline(self.underline),
            vanish: self.vanish,
            vert_align: self.vert_align,
            rtl: self.rtl,
            cs: self.cs,
            lang: opt_str(self.lang),
        }
    }
}

/// Formatting that says nothing.
pub open spec fn plain_look() -> RunLook {
    RunLook {
        review_origin: None,
        style: None,
        font: None,
        strong: false,
        bold: false,
        emphasis: false,
        italic: false,
        caps: false,
        smallcaps: false,
        strike: false,
        no_proof: false,
        color: None,
        text_fill: None,
        preserve_color: false,
        tracking: None,
        position_half_pt: None,
        size_half_pt: None,
        highlight: None,
        shd_fill: None,
        bdr: None,
        underline: None,
        vanish: false,
        vert_align: None,
        rtl: false,
        cs: false,
        lang: None,
    }
}

fn copy_text(s: &Option<String>) -> (r: Option<String>)
    ensures
        opt_str(r) == opt_str(*s),
{
    match s {
        Some(t) => Some(t.clone()),
        None => None,
    }
}

fn copy_stops(s: &Vec<GradientStop>) -> (r: Vec<GradientStop>)
    ensures
        r@ == s@,
{
    let mut out: Vec<GradientStop> = Vec::new();
    let mut i: usize = 0;
    while i < s.len()
        invariant
            i <= s.len(),
            out@ == s@.take(i as int),
        decreases s.len() - i,
    {
        out.push(s[i]);
        i = i + 1;
        assert(out@ =~= s@.take(i as int));
    }
    assert(out@ =~= s@);
    out
}

/// A copy of a text fill.
pub fn copy_fill(fill: &TextFill) -> (r: TextFill)
    ensures
        r@ == fill@,
{
    match fill {
        TextFill::Linear { angle_60k, stops } => TextFill::Linear {
            angle_60k: *angle_60k,
            stops: copy_stops(stops),
        },
        TextFill::Radial { stops, focal_center_100k, focal_radius_100k } => TextFill::Radial {
            stops: copy_stops(stops),
            focal_center_100k: *focal_center_100k,
            focal_radius_100k: *focal_radius_100k,
        },
    }
}

/// A copy of character formatting.
pub fn copy_run_props(p: &RunProps) -> (r: RunProps)
    ensures
        r@ == p@,
{
    RunProps {
        review_origin: p.review_origin,
        style: copy_text(&p.style),
        font: copy_text(&p.font),
        strong: p.strong,
        bold: p.bold,
        emphasis: p.emphasis,
        italic: p.italic,
        caps: p.caps,
        smallcaps: p.smallcaps,
        strike: p.strike,
        no_proof: p.no_proof,
        color: p.color,
        text_fill: match &p.text_fill {
            Some(fill) => Some(copy_fill(fill)),
            None => None,
        },
        preserve_color: p.preserve_color,
        tracking: p.tracking,
        position_half_pt: p.position_half_pt,
        size_half_pt: p.size_half_pt,
        highlight: p.highlight,
        shd_fill: p.shd_fill,
        bdr: p.bdr,
        underline: p.underline,
        vanish: p.vanish,
        vert_align: p.vert_align,
        rtl: p.rtl,
        cs: p.cs,
        lang: copy_text(&p.lang),
    }
}

fn stops_eq(a: &Vec<GradientStop>, b: &Vec<GradientStop>) -> (r: bool)
    ensures
        r == (a@ == b@),
{
    if a.len() != b.len() {
        return false;
    }
    let mut i: usize = 0;
    while i < a.len()
        invariant
            i <= a.len(),
            a@.len() == b@.len(),
            a@.take(i as int) == b@.take(i as int),
        decreases a.len() - i,
    {
        let x: GradientStop = a[i];
        let y: GradientStop = b[i];
        let same: bool = x.pos_100k == y.pos_100k && x.color[0] == y.color[0] && x.color[1]
            == y.color[1] && x.color[2] == y.color[2] && x.color[3] == y.color[3];
        if !same {
            return false;
        }
        proof {
            assert(x.color@ =~= y.color@);
            assert(x.color =~= y.color);
            assert(a@.take(i + 1) =~= a@.take(i as int).push(x));
            assert(b@.take(i + 1) =~= b@.take(i as int).push(y));
        }
        i = i + 1;
    }
    assert(a@.take(i as int) =~= a@);
    assert(b@.take(i as int) =~= b@);
    true
}

/// Compares two optional text fills.
pub fn fill_eq(a: &Option<TextFill>, b: &Option<TextFill>) -> (r: bool)
    ensures
        r == (opt_fill(*a) == opt_fill(*b)),
{
    match (a, b) {
        (None, None) => true,
        (
            Some(TextFill::Linear { angle_60k: x, stops: s }),
            Some(TextFill::Linear { angle_60k: y, stops: t }),
        ) => *x == *y && stops_eq(s, t),
        (
            Some(
                TextFill::Radial { stops: s, focal_center_100k: c, focal_radius_100k: x },
            ),
            Some(
                TextFill::Radial { stops: t, focal_center_100k: d, focal_radius_100k: y },
            ),
        ) => {
            let same: bool = *x == *y && c[0] == d[0] && c[1] == d[1] && stops_eq(s, t);
            proof {
                if same {
                    assert(c@ =~= d@);
                    assert(*c =~= *d);
                }
            }
            same
        },
        _ => false,
    }
}

/// Compares two optional static strings.
pub fn static_eq(a: Option<&'static str>, b: Option<&'static str>) -> (r: bool)
    ensures
        r == (opt_static(a) == opt_static(b)),
{
    match (a, b) {
        (None, None) => true,
        (Some(x), Some(y)) => str_eq(x, y),
        _ => false,
    }
}

/// Compares two optional borders.
pub fn border_eq(a: Option<ParaBorder>, b: Option<ParaBorder>) -> (r: bool)
    ensures
        r == (opt_border(a) == opt_border(b)),
{
    match (a, b) {
        (None, None) => true,
        (Some(x), Some(y)) => str_eq(x.style, y.style) && x.sz == y.sz && x.space == y.space
            && rgb_eq(x.color, y.color),
        _ => false,
    }
}

/// Compares two optional underlines.
pub fn underline_eq(a: Option<Underline>, b: Option<Underline>) -> (r: bool)
    ensures
        r == (opt_underline(a) == opt_underline(b)),
{
    match (a, b) {
        (None, None) => true,
        (Some(x), Some(y)) => str_eq(x.val, y.val) && opt_rgb_eq(x.color, y.color),
        _ => false,
    }
}

/// Whether two formattings say the same.
pub fn run_props_eq(a: &RunProps, b: &RunProps) -> (r: bool)
    ensures
        r == (a@ == b@),
{
    let flags: bool = a.strong == b.strong && a.bold == b.bold && a.emphasis == b.emphasis
        && a.italic == b.italic && a.caps == b.caps && a.smallcaps == b.smallcaps && a.strike
        == b.strike && a.no_proof == b.no_proof && a.preserve_color == b.preserve_color
        && a.vanish == b.vanish && a.rtl == b.rtl && a.cs == b.cs;
    let numbers: bool = a.tracking == b.tracking && a.position_half_pt == b.position_half_pt
        && a.size_half_pt == b.size_half_pt && a.vert_align == b.vert_align && a.review_origin
        == b.review_origin;
    flags && numbers && opt_str_eq(&a.style, &b.style) && opt_str_eq(&a.font, &b.font)
        && opt_rgb_eq(a.color, b.color) && fill_eq(&a.text_fill, &b.text_fill) && static_eq(
        a.highlight,
        b.highlight,
    ) && opt_rgb_eq(a.shd_fill, b.shd_fill) && border_eq(a.bdr, b.bdr) && underline_eq(
        a.underline,
        b.underline,
    ) && opt_str_eq(&a.lang, &b.lang)
}

/// What the sides of a paragraph border say.
pub struct BordersLook {
    pub top: Option<BorderLook>,
    pub left: Option<BorderLook>,
    pub bottom: Option<BorderLook>,
    pub right: Option<BorderLook>,
}

impl View for ParaBorders {
    type V = BordersLook;

    open spec fn view(&self) -> BordersLook {
        BordersLook {
            top: opt_border(self.top),
            left: opt_border(self.left),
            bottom: opt_border(self.bottom),
            right: opt_border(self.right),
        }
    }
}

/// What optional paragraph borders say.
pub open spec fn opt_borders(s: Option<ParaBorders>) -> Option<BordersLook> {
    match s {
        Some(t) => Some(t@),
        None => None,
    }
}

/// What paragraph formatting says.
pub struct ParaLook {
    pub review_origin: Option<ReviewOrigin>,
    pub typst_par_spacing_before: Option<i32>,
    pub typst_par_spacing_after: Option<i32>,
    pub style: Option<Seq<char>>,
    pub keep_next: bool,
    pub page_break_before: bool,
    pub keep_lines: bool,
    pub num: Option<(u32, u8)>,
    pub suppress_line_numbers: bool,
    pub bidi: bool,
    pub spacing: Option<Spacing>,
    pub ind: Option<Indent>,
    pub contextual_spacing: bool,
    pub jc: Option<Jc>,
    pub outline_lvl: Option<u8>,
    pub tabs: Seq<TabStop>,
    pub shd_fill: Option<[u8; 3]>,
    pub pbdr: Option<BordersLook>,
}

impl View for ParaProps {
    type V = ParaLook;

    open spec fn view(&self) -> ParaLook {
        ParaLook {
            review_origin: self.review_origin,
            typst_par_spacing_before: self.typst_par_spacing_before,
            typst_par_spacing_after: self.typst_par_spacing_after,
            style: opt_str(self.style),
            keep_next: self.keep_next,
            page_break_before: self.page_break_before,
            keep_lines: self.keep_lines,
            num: self.num,
            suppress_line_numbers: self.suppress_line_numbers,
            bidi: self.bidi,
            spacing: self.spacing,
            ind: self.ind,
            contextual_spacing: self.contextual_spacing,
            jc: self.jc,
            outline_lvl: self.outline_lvl,
            tabs: self.tabs@,
            shd_fill: self.shd_fill,
            pbdr: opt_borders(self.pbdr),
        }
    }
}

/// Paragraph formatting that says nothing.
pub open spec fn plain_para() -> ParaLook {
    ParaLook {
        review_origin: None,
        typst_par_spacing_before: None,
        typst_par_spacing_after: None,
        style: None,
        keep_next: false,
        page_break_before: false,
        keep_lines: false,
        num: None,
        suppress_line_numbers: false,
        bidi: false,
        spacing: None,
        ind: None,
        contextual_spacing: false,
        jc: None,
        outline_lvl: None,
        tabs: seq![],
        shd_fill: None,
        pbdr: None,
    }
}

/// A block with the contents of a paragraph laid open.
pub enum FlowLook {
    Para { props: ParaLook, content: Seq<ParaChild> },
    Other(Block),
}

/// A block with the contents of a paragraph laid open.
pub open spec fn flow_look(block: Block) -> FlowLook {
    match block {
        Block::Para(para) => FlowLook::Para { props: para.props@, content: para.content@ },
        _ => FlowLook::Other(block),
    }
}

/// Blocks with the contents of paragraphs laid open.
pub open spec fn flow_looks(blocks: Seq<Block>) -> Seq<FlowLook> {
    blocks.map_values(|b: Block| flow_look(b))
}

/// A run with the formatting and the text of a text run laid open.
pub enum RunItem {
    Text { props: RunLook, text: Seq<char> },
    Other(Run),
}

/// A run with the formatting and the text of a text run laid open.
pub open spec fn run_item(run: Run) -> RunItem {
    match run {
        Run::Text { props, text } => RunItem::Text { props: props@, text: text@ },
        _ => RunItem::Other(run),
    }
}

/// Runs with the formatting and the text of text runs laid open.
pub open spec fn run_items(runs: Seq<Run>) -> Seq<RunItem> {
    runs.map_values(|r: Run| run_item(r))
}

} // verus!
