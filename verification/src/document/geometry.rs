//! Page geometry of a section.

use vstd::prelude::*;

use crate::document::sections::{FixedAlign, FlowItem, FlowKind};
use crate::dom::{Jc, LineNumbering, Tag, TagElem, VAlign};
use crate::length::{Rel, abs_to_twip, round_div, round_div_i128, sat64, twips};
use crate::text::str_eq;

verus! {

/// The identity of a piece of page content (a header, a footer, a page
/// background or foreground). Equal contents have equal identities.
#[derive(Debug, Copy, Clone, PartialEq, Eq, Structural)]
pub struct ContentId(pub u128);

/// The identity of a page numbering. Equal numberings have equal identities.
#[derive(Debug, Copy, Clone, PartialEq, Eq, Structural)]
pub struct NumberingId(pub u64);

/// The resolved page setup of one run of pages. Lengths are in twips.
#[derive(Debug, Copy, Clone)]
pub struct SectGeom {
    pub page_w: i32,
    pub page_h: i32,
    pub landscape: bool,
    pub margin_top: i32,
    pub margin_bottom: i32,
    pub margin_left: i32,
    pub margin_right: i32,
    pub header_band: i32,
    pub footer_band: i32,
    pub gutter: i32,
    pub columns: u32,
    pub col_space: i32,
    /// Whether the margins alternate between inside and outside.
    pub mirror_margins: bool,
    /// Whether the binding gutter is on the right side.
    pub rtl_gutter: bool,
    /// Whole-page vertical alignment when all content of the run agrees on one.
    pub vertical_align: Option<VAlign>,
    /// Line numbering of the run.
    pub line_numbers: Option<LineNumbering>,
    /// The page numbering, if any.
    pub numbering: Option<NumberingId>,
    /// An explicit page-counter restart in this run.
    pub page_num_start: Option<i64>,
    /// Whether an automatic page number lands in the header.
    pub number_in_header: bool,
    /// The alignment of an automatic page-number paragraph.
    pub number_jc: Option<Jc>,
    /// Explicit header content.
    pub header: Option<ContentId>,
    /// Whether the header is explicitly suppressed.
    pub header_suppressed: bool,
    /// Explicit footer content.
    pub footer: Option<ContentId>,
    /// Whether the footer is explicitly suppressed.
    pub footer_suppressed: bool,
    /// Content drawn behind the text of every page.
    pub background: Option<ContentId>,
    /// Content drawn in front of the text of every page.
    pub foreground: Option<ContentId>,
    /// A flat page color.
    pub background_color: Option<[u8; 3]>,
    /// Whether the run's body is hyphenated.
    pub hyphenate: bool,
}

/// What line numbering settings mean.
pub open spec fn line_numbers_view(l: Option<LineNumbering>) -> Option<
    (u32, u32, Seq<char>, i32),
> {
    match l {
        Some(n) => Some((n.count_by, n.start, n.restart@, n.distance)),
        None => None,
    }
}

/// Whether two page runs can share one section: they are equal on every
/// property that a section break exists to change, the page geometry as well as
/// the section-scoped furniture. Page color, vertical alignment and hyphenation
/// are deliberately left out: they never open a section by themselves.
pub open spec fn sections_agree(a: SectGeom, b: SectGeom) -> bool {
    &&& a.page_w == b.page_w
    &&& a.page_h == b.page_h
    &&& a.landscape == b.landscape
    &&& a.margin_top == b.margin_top
    &&& a.margin_bottom == b.margin_bottom
    &&& a.margin_left == b.margin_left
    &&& a.margin_right == b.margin_right
    &&& a.header_band == b.header_band
    &&& a.footer_band == b.footer_band
    &&& a.columns == b.columns
    &&& a.col_space == b.col_space
    &&& a.gutter == b.gutter
    &&& a.numbering == b.numbering
    &&& line_numbers_view(a.line_numbers) == line_numbers_view(b.line_numbers)
    &&& a.number_in_header == b.number_in_header
    &&& a.number_jc == b.number_jc
    &&& a.header_suppressed == b.header_suppressed
    &&& a.footer_suppressed == b.footer_suppressed
    &&& a.header == b.header
    &&& a.footer == b.footer
    &&& a.background == b.background
    &&& a.foreground == b.foreground
}

fn line_numbers_eq(a: &Option<LineNumbering>, b: &Option<LineNumbering>) -> (r: bool)
    ensures
        r == (line_numbers_view(*a) == line_numbers_view(*b)),
{
    match (a, b) {
        (Some(x), Some(y)) => x.count_by == y.count_by && x.start == y.start && str_eq(
            x.restart,
            y.restart,
        ) && x.distance == y.distance,
        (None, None) => true,
        _ => false,
    }
}

/// Whether two page runs can share one section.
pub fn same_section(a: &SectGeom, b: &SectGeom) -> (r: bool)
    ensures
        r == sections_agree(*a, *b),
{
    a.page_w == b.page_w && a.page_h == b.page_h && a.landscape == b.landscape && a.margin_top
        == b.margin_top && a.margin_bottom == b.margin_bottom && a.margin_left == b.margin_left
        && a.margin_right == b.margin_right && a.header_band == b.header_band && a.footer_band
        == b.footer_band && a.columns == b.columns && a.col_space == b.col_space && a.gutter
        == b.gutter && a.numbering == b.numbering && line_numbers_eq(
        &a.line_numbers,
        &b.line_numbers,
    ) && a.number_in_header == b.number_in_header && a.number_jc == b.number_jc
        && a.header_suppressed == b.header_suppressed && a.footer_suppressed == b.footer_suppressed
        && a.header == b.header && a.footer == b.footer && a.background == b.background
        && a.foreground == b.foreground
}

/// Which side pages are bound on.
#[derive(Debug, Copy, Clone, PartialEq, Eq, Structural)]
pub enum Binding {
    Left,
    Right,
}

/// A horizontal alignment as authored.
#[derive(Debug, Copy, Clone, PartialEq, Eq, Structural)]
pub enum HAlign {
    Start,
    Left,
    Center,
    Right,
    End,
}

/// What a page rule says of a header or a footer.
#[derive(Debug, Copy, Clone, PartialEq, Eq, Structural)]
pub enum Marginal {
    /// Nothing; an automatic page number may take the place.
    Auto,
    /// Explicitly none.
    Suppressed,
    /// Explicit content.
    Content(ContentId),
}

/// Where line numbers restart.
#[derive(Debug, Copy, Clone, PartialEq, Eq, Structural)]
pub enum LineScope {
    Document,
    Page,
}

/// Line numbering as authored: the clearance, where it is not automatic, and
/// the scope.
#[derive(Debug, Copy, Clone, PartialEq, Eq, Structural)]
pub struct LineFacts {
    pub clearance: Option<i64>,
    pub scope: LineScope,
}

/// Content drawn on every page, and whether it is empty.
#[derive(Debug, Copy, Clone, PartialEq, Eq, Structural)]
pub struct Overlay {
    pub content: ContentId,
    pub empty: bool,
}

/// The page properties that a run's style chain resolves to.
#[derive(Debug, Copy, Clone)]
pub struct PageFacts {
    /// The page width; `None` where it follows the content.
    pub width: Option<i64>,
    /// The page height; `None` where it follows the content.
    pub height: Option<i64>,
    pub flipped: bool,
    /// The margins; `None` where they are automatic.
    pub margin_left: Option<Rel>,
    pub margin_top: Option<Rel>,
    pub margin_right: Option<Rel>,
    pub margin_bottom: Option<Rel>,
    /// Whether left and right stand for inside and outside.
    pub two_sided: bool,
    pub columns: u32,
    pub header_ascent: Rel,
    pub footer_descent: Rel,
    /// The binding; `None` follows the text direction.
    pub binding: Option<Binding>,
    /// Whether the text runs from left to right.
    pub ltr: bool,
    pub line_numbering: Option<LineFacts>,
    pub font_size: i64,
    pub numbering: Option<NumberingId>,
    /// Whether the page number stands at the top.
    pub number_at_top: bool,
    pub number_x: Option<HAlign>,
    pub header: Marginal,
    pub footer: Marginal,
    pub background: Option<Overlay>,
    pub foreground: Option<Overlay>,
    /// The page fill, where it is a solid color.
    pub fill: Option<[u8; 3]>,
    /// Whether text is hyphenated; `None` follows justification.
    pub hyphenate: Option<bool>,
    pub justify: bool,
}

/// The width of an A4 page.
pub const A4_WIDTH: i64 = 595_275_591;

/// The height of an A4 page.
pub const A4_HEIGHT: i64 = 841_889_764;

/// A page size.
#[derive(Debug, Copy, Clone, PartialEq, Eq, Structural)]
pub struct PageSize {
    pub x: i64,
    pub y: i64,
}

/// The larger of two lengths.
pub open spec fn larger(a: i64, b: i64) -> i64 {
    if a >= b {
        a
    } else {
        b
    }
}

/// The size of the physical page that an item landed on.
pub open spec fn item_page_size(item: FlowItem, sizes: Seq<PageSize>) -> Option<PageSize> {
    match item.page {
        Some(page) => if 1 <= page <= sizes.len() {
            Some(sizes[page - 1])
        } else {
            None
        },
        None => None,
    }
}

/// The largest width and the largest height among the physical pages that the
/// first `n` items landed on.
pub open spec fn pages_extent(group: Seq<FlowItem>, sizes: Seq<PageSize>, n: int) -> Option<
    PageSize,
>
    decreases n,
{
    if n <= 0 {
        None
    } else {
        let before = pages_extent(group, sizes, n - 1);
        match (before, item_page_size(group[n - 1], sizes)) {
            (Some(m), Some(s)) => Some(PageSize { x: larger(m.x, s.x), y: larger(m.y, s.y) }),
            (None, Some(s)) => Some(s),
            (m, None) => m,
        }
    }
}

/// The size that the paged layout computed for the pages of a run: the largest
/// extent over all pages that its items landed on, so that no page's content is
/// clipped. `None` when the layout of no item is known.
pub fn real_section_size(group: &[FlowItem], sizes: &Vec<PageSize>) -> (r: Option<PageSize>)
    ensures
        r == pages_extent(group@, sizes@, group@.len() as int),
{
    let mut max: Option<PageSize> = None;
    let mut i: usize = 0;
    while i < group.len()
        invariant
            i <= group.len(),
            max == pages_extent(group@, sizes@, i as int),
        decreases group.len() - i,
    {
        if let Some(page) = group[i].page {
            if 1 <= page && page <= sizes.len() {
                let size: PageSize = sizes[page - 1];
                max = Some(
                    match max {
                        Some(m) => PageSize {
                            x: if m.x >= size.x {
                                m.x
                            } else {
                                size.x
                            },
                            y: if m.y >= size.y {
                                m.y
                            } else {
                                size.y
                            },
                        },
                        None => size,
                    },
                );
            }
        }
        i = i + 1;
    }
    max
}

/// The axes of a page after flipping and after looking up automatic axes in the
/// paged layout.
pub open spec fn known_axes(facts: PageFacts, laid: Option<PageSize>) -> (Option<i64>, Option<i64>) {
    let (w, h) = if facts.flipped {
        (facts.height, facts.width)
    } else {
        (facts.width, facts.height)
    };
    (
        match (w, laid) {
            (None, Some(r)) => Some(r.x),
            _ => w,
        },
        match (h, laid) {
            (None, Some(r)) => Some(r.y),
            _ => h,
        },
    )
}

/// The page size: the known axes, with A4 for those that are not known.
pub open spec fn page_size(facts: PageFacts, laid: Option<PageSize>) -> PageSize {
    let (w, h) = known_axes(facts, laid);
    PageSize {
        x: match w {
            Some(x) => x,
            None => A4_WIDTH,
        },
        y: match h {
            Some(y) => y,
            None => A4_HEIGHT,
        },
    }
}

/// The reference of automatic margins: the smaller known axis, or the width of
/// A4 when neither is known.
pub open spec fn margin_reference(facts: PageFacts, laid: Option<PageSize>) -> i64 {
    match known_axes(facts, laid) {
        (Some(x), Some(y)) => if x <= y {
            x
        } else {
            y
        },
        (Some(x), None) => x,
        (None, Some(y)) => y,
        (None, None) => A4_WIDTH,
    }
}

/// One margin: its own length, or 2.5/21 of the reference.
pub open spec fn margin(side: Option<Rel>, reference: i64, axis: i64) -> i64 {
    match side {
        Some(rel) => rel.at(axis),
        None => round_div(5 * reference, 42) as i64,
    }
}

/// A header or footer band offset brought into `(0, margin)`, with half an inch
/// as the conventional value for a degenerate one.
pub open spec fn band_in(band: i32, margin: i32) -> i32 {
    if 0 < band < margin {
        band
    } else if margin > 720 {
        720
    } else if margin >= 2 {
        (margin as int / 2) as i32
    } else {
        1
    }
}

/// Brings a header or footer band offset into `(0, margin)`, falling back to
/// half an inch when the computed value is degenerate.
pub fn clamp_band(band: i32, margin: i32) -> (r: i32)
    ensures
        r == band_in(band, margin),
{
    if band > 0 && band < margin {
        band
    } else if margin > 720 {
        720
    } else if margin >= 2 {
        margin / 2
    } else {
        1
    }
}

/// The left margin, the right margin and the gutter. With inside and outside
/// margins a larger inside margin becomes the outside one plus a gutter.
pub open spec fn bound_margins(two_sided: bool, left: i32, right: i32) -> (i32, i32, int) {
    if two_sided && left >= right {
        (right, right, left - right)
    } else {
        (left, right, 0)
    }
}

/// Whether the pages are bound on the right.
pub open spec fn binds_right(facts: PageFacts) -> bool {
    match facts.binding {
        Some(b) => b == Binding::Right,
        None => !facts.ltr,
    }
}

/// The common vertical alignment of the content of a run: that of the first
/// item that is no tag, when all others share it.
pub open spec fn common_valign(group: Seq<FlowItem>) -> Option<VAlign> {
    let content = group.filter(|item: FlowItem| !item.is_tag());
    if content.len() > 0 && (forall|i: int|
        0 <= i < content.len() ==> (#[trigger] content[i]).align_y == content[0].align_y) {
        match content[0].align_y {
            FixedAlign::Center => Some(VAlign::Center),
            FixedAlign::End => Some(VAlign::Bottom),
            FixedAlign::Start => None,
        }
    } else {
        None
    }
}

/// The page-counter restart that an item carries.
pub open spec fn page_reset(item: FlowItem) -> Option<i64> {
    match item.kind {
        FlowKind::Tag(Tag::Start { elem: TagElem::PageReset(n), .. }) => Some(n),
        _ => None,
    }
}

/// The first page-counter restart among the items from `i` on.
pub open spec fn first_reset(group: Seq<FlowItem>, i: int) -> Option<i64>
    decreases group.len() - i,
{
    if 0 <= i < group.len() {
        match page_reset(group[i]) {
            Some(n) => Some(n),
            None => first_reset(group, i + 1),
        }
    } else {
        None
    }
}

/// The automatic distance of line numbers: 2.6% of the page width, between
/// three quarters and two and a half of the font size.
pub open spec fn auto_clearance(width: int, font_size: int) -> int {
    let share = round_div(26 * width, 1000);
    let low = if font_size > 0 {
        round_div(3 * font_size, 4)
    } else {
        0
    };
    let high = if font_size > 0 {
        round_div(5 * font_size, 2)
    } else {
        0
    };
    if share < low {
        low
    } else if share > high {
        high
    } else {
        share
    }
}

/// The distance of line numbers in twips.
pub open spec fn line_distance(facts: PageFacts, line: LineFacts) -> i32 {
    match line.clearance {
        Some(c) => twips(c as int),
        None => {
            let width = if facts.flipped {
                facts.height
            } else {
                facts.width
            };
            twips(
                auto_clearance(
                    match width {
                        Some(w) => w as int,
                        None => 0,
                    },
                    facts.font_size as int,
                ),
            )
        },
    }
}

/// What the line numbering of a run is.
pub open spec fn lines_of(facts: PageFacts) -> Option<(u32, u32, Seq<char>, i32)> {
    match facts.line_numbering {
        Some(line) => Some(
            (
                1u32,
                1u32,
                match line.scope {
                    LineScope::Document => "continuous"@,
                    LineScope::Page => "newPage"@,
                },
                line_distance(facts, line),
            ),
        ),
        None => None,
    }
}

/// The paragraph alignment of a page number.
pub open spec fn number_jc_of(x: Option<HAlign>, ltr: bool) -> Option<Jc> {
    match x {
        None => None,
        Some(HAlign::Center) => Some(Jc::Center),
        Some(HAlign::Left) => Some(Jc::Start),
        Some(HAlign::Right) => Some(Jc::End),
        Some(HAlign::Start) => Some(
            if ltr {
                Jc::Start
            } else {
                Jc::End
            },
        ),
        Some(HAlign::End) => Some(
            if ltr {
                Jc::End
            } else {
                Jc::Start
            },
        ),
    }
}

/// The content of a header or footer.
pub open spec fn marginal_content(m: Marginal) -> Option<ContentId> {
    match m {
        Marginal::Content(c) => Some(c),
        _ => None,
    }
}

/// The content of an overlay that is not empty.
pub open spec fn overlay_content(o: Option<Overlay>) -> Option<ContentId> {
    match o {
        Some(v) => if v.empty {
            None
        } else {
            Some(v.content)
        },
        None => None,
    }
}

/// Whether `g` is the geometry of a page run.
pub open spec fn is_geometry(
    g: SectGeom,
    facts: PageFacts,
    group: Seq<FlowItem>,
    sizes: Seq<PageSize>,
) -> bool {
    let laid = pages_extent(group, sizes, group.len() as int);
    let size = page_size(facts, laid);
    let reference = margin_reference(facts, laid);
    let left = margin(facts.margin_left, reference, size.x);
    let right = margin(facts.margin_right, reference, size.x);
    let top = margin(facts.margin_top, reference, size.y);
    let bottom = margin(facts.margin_bottom, reference, size.y);
    let bound = bound_margins(facts.two_sided, twips(left as int), twips(right as int));
    &&& g.page_w == twips(size.x as int)
    &&& g.page_h == twips(size.y as int)
    &&& g.landscape == (size.x > size.y)
    &&& g.margin_top == twips(top as int)
    &&& g.margin_bottom == twips(bottom as int)
    &&& g.margin_left == bound.0
    &&& g.margin_right == bound.1
    &&& g.gutter == (if bound.2 > i32::MAX {
        i32::MAX as int
    } else {
        bound.2
    })
    &&& g.header_band == band_in(
        twips(sat64(top - facts.header_ascent.at(top)) as int),
        twips(top as int),
    )
    &&& g.footer_band == band_in(
        twips(sat64(bottom - facts.footer_descent.at(bottom)) as int),
        twips(bottom as int),
    )
    &&& g.columns == facts.columns
    &&& g.col_space == round_div(twips(size.x as int) as int, 25)
    &&& g.mirror_margins == facts.two_sided
    &&& g.rtl_gutter == (facts.two_sided && binds_right(facts) && bound.2 > 0)
    &&& g.vertical_align == common_valign(group)
    &&& line_numbers_view(g.line_numbers) == lines_of(facts)
    &&& g.numbering == facts.numbering
    &&& g.page_num_start == first_reset(group, 0)
    &&& g.number_in_header == facts.number_at_top
    &&& g.number_jc == number_jc_of(facts.number_x, facts.ltr)
    &&& g.header == marginal_content(facts.header)
    &&& g.header_suppressed == (facts.header == Marginal::Suppressed)
    &&& g.footer == marginal_content(facts.footer)
    &&& g.footer_suppressed == (facts.footer == Marginal::Suppressed)
    &&& g.background == overlay_content(facts.background)
    &&& g.foreground == overlay_content(facts.foreground)
    &&& g.background_color == facts.fill
    &&& g.hyphenate == (match facts.hyphenate {
        Some(v) => v,
        None => facts.justify,
    })
}

fn resolve_margin(side: Option<Rel>, reference: i64, axis: i64) -> (r: i64)
    ensures
        r == margin(side, reference, axis),
{
    match side {
        Some(rel) => rel.relative_to(axis),
        None => {
            let n: i128 = 5 * (reference as i128);
            let r: i128 = round_div_i128(n, 42);
            assert(r == (if n >= 0 {
                (2 * n + 42) / 84
            } else {
                -((-2 * n + 42) / 84)
            }));
            assert(-0x8000_0000_0000_0000 <= r <= 0x7fff_ffff_ffff_ffff);
            r as i64
        },
    }
}

fn resolve_valign(group: &[FlowItem]) -> (r: Option<VAlign>)
    ensures
        r == common_valign(group@),
{
    let ghost keep = |item: FlowItem| !item.is_tag();
    let mut first: Option<FixedAlign> = None;
    let mut same: bool = true;
    let mut i: usize = 0;
    while i < group.len()
        invariant
            i <= group.len(),
            keep == (|item: FlowItem| !item.is_tag()),
            ({
                let content = group@.take(i as int).filter(keep);
                &&& (first is Some) == (content.len() > 0)
                &&& first matches Some(a) ==> a == content[0].align_y
                &&& same == (forall|k: int|
                    0 <= k < content.len() ==> (#[trigger] content[k]).align_y
                        == content[0].align_y)
            }),
        decreases group.len() - i,
    {
        let ghost before = group@.take(i as int).filter(keep);
        let tag: bool = match group[i].kind {
            FlowKind::Tag(_) => true,
            _ => false,
        };
        proof {
            assert(group@.take(i + 1).drop_last() =~= group@.take(i as int));
            reveal(Seq::filter);
        }
        if !tag {
            let align: FixedAlign = group[i].align_y;
            let ghost after = before.push(group@[i as int]);
            assert(group@.take(i + 1).filter(keep) == after);
            match first {
                None => {
                    first = Some(align);
                    assert(before.len() == 0);
                    assert(after[0] == group@[i as int]);
                }
                Some(a) => {
                    assert(after[0] == before[0]);
                    if align != a {
                        same = false;
                        assert(after[before.len() as int].align_y != after[0].align_y);
                    } else {
                        assert forall|k: int| 0 <= k < after.len() && same implies (
                        #[trigger] after[k]).align_y == after[0].align_y by {
                            if k < before.len() {
                                assert(after[k] == before[k]);
                            }
                        }
                        proof {
                            if !same {
                                let k = choose|k: int|
                                    0 <= k < before.len() && (#[trigger] before[k]).align_y
                                        != before[0].align_y;
                                assert(after[k] == before[k]);
                            }
                        }
                    }
                }
            }
        }
        i = i + 1;
    }
    assert(group@.take(i as int) =~= group@);
    match first {
        Some(a) => if same {
            match a {
                FixedAlign::Center => Some(VAlign::Center),
                FixedAlign::End => Some(VAlign::Bottom),
                FixedAlign::Start => None,
            }
        } else {
            None
        },
        None => None,
    }
}

fn find_reset(group: &[FlowItem]) -> (r: Option<i64>)
    ensures
        r == first_reset(group@, 0),
{
    let mut i: usize = 0;
    while i < group.len()
        invariant
            i <= group.len(),
            first_reset(group@, 0) == first_reset(group@, i as int),
        decreases group.len() - i,
    {
        if let FlowKind::Tag(Tag::Start { elem: TagElem::PageReset(n), .. }) = group[i].kind {
            return Some(n);
        }
        i = i + 1;
    }
    None
}

fn resolve_lines(facts: &PageFacts) -> (r: Option<LineNumbering>)
    ensures
        line_numbers_view(r) == lines_of(*facts),
{
    match facts.line_numbering {
        None => None,
        Some(line) => {
            let distance: i32 = match line.clearance {
                Some(c) => abs_to_twip(c),
                None => {
                    let width: Option<i64> = if facts.flipped {
                        facts.height
                    } else {
                        facts.width
                    };
                    let w: i128 = match width {
                        Some(w) => w as i128,
                        None => 0,
                    };
                    auto_clearance_twips(w, facts.font_size as i128)
                },
            };
            let restart: &'static str = match line.scope {
                LineScope::Document => "continuous",
                LineScope::Page => "newPage",
            };
            Some(LineNumbering { count_by: 1, start: 1, restart, distance })
        },
    }
}

fn auto_clearance_twips(width: i128, font_size: i128) -> (r: i32)
    requires
        i64::MIN <= width <= i64::MAX,
        i64::MIN <= font_size <= i64::MAX,
    ensures
        r == twips(auto_clearance(width as int, font_size as int)),
{
    let share: i128 = round_div_i128(26 * width, 1000);
    let low: i128 = if font_size > 0 {
        round_div_i128(3 * font_size, 4)
    } else {
        0
    };
    let high: i128 = if font_size > 0 {
        round_div_i128(5 * font_size, 2)
    } else {
        0
    };
    let v: i128 = if share < low {
        low
    } else if share > high {
        high
    } else {
        share
    };
    crate::length::clamp_i32(round_div_i128(v, crate::length::TWIP as i128))
}

/// Resolves the geometry of one page run from the page properties of its style
/// chain, its items and the physical page sizes of the paged layout.
pub fn run_geometry(facts: &PageFacts, group: &[FlowItem], sizes: &Vec<PageSize>) -> (g: SectGeom)
    ensures
        is_geometry(g, *facts, group@, sizes@),
{
    let laid: Option<PageSize> = real_section_size(group, sizes);
    let (authored_w, authored_h) = if facts.flipped {
        (facts.height, facts.width)
    } else {
        (facts.width, facts.height)
    };
    let w: Option<i64> = match (authored_w, laid) {
        (None, Some(r)) => Some(r.x),
        _ => authored_w,
    };
    let h: Option<i64> = match (authored_h, laid) {
        (None, Some(r)) => Some(r.y),
        _ => authored_h,
    };
    let reference: i64 = match (w, h) {
        (Some(x), Some(y)) => if x <= y {
            x
        } else {
            y
        },
        (Some(x), None) => x,
        (None, Some(y)) => y,
        (None, None) => A4_WIDTH,
    };
    let size_x: i64 = match w {
        Some(x) => x,
        None => A4_WIDTH,
    };
    let size_y: i64 = match h {
        Some(y) => y,
        None => A4_HEIGHT,
    };

    let left: i64 = resolve_margin(facts.margin_left, reference, size_x);
    let right: i64 = resolve_margin(facts.margin_right, reference, size_x);
    let top: i64 = resolve_margin(facts.margin_top, reference, size_y);
    let bottom: i64 = resolve_margin(facts.margin_bottom, reference, size_y);

    // The band offset is the margin minus the ascent or descent, which is
    // measured from the inner margin edge.
    let header_at: i64 = crate::length::clamp_i64(
        top as i128 - facts.header_ascent.relative_to(top) as i128,
    );
    let footer_at: i64 = crate::length::clamp_i64(
        bottom as i128 - facts.footer_descent.relative_to(bottom) as i128,
    );
    let header_band: i32 = clamp_band(abs_to_twip(header_at), abs_to_twip(top));
    let footer_band: i32 = clamp_band(abs_to_twip(footer_at), abs_to_twip(bottom));

    let inside: i32 = abs_to_twip(left);
    let outside: i32 = abs_to_twip(right);
    let folded: bool = facts.two_sided && inside >= outside;
    let margin_left: i32 = if folded {
        outside
    } else {
        inside
    };
    let difference: i64 = inside as i64 - outside as i64;
    let gutter: i32 = if !folded {
        0
    } else if difference > i32::MAX as i64 {
        i32::MAX
    } else {
        difference as i32
    };
    let binding_right: bool = match facts.binding {
        Some(b) => b == Binding::Right,
        None => !facts.ltr,
    };

    let page_w: i32 = abs_to_twip(size_x);
    let col_space: i128 = round_div_i128(page_w as i128, 25);

    SectGeom {
        page_w,
        page_h: abs_to_twip(size_y),
        landscape: size_x > size_y,
        margin_top: abs_to_twip(top),
        margin_bottom: abs_to_twip(bottom),
        margin_left,
        margin_right: outside,
        header_band,
        footer_band,
        gutter,
        columns: facts.columns,
        col_space: col_space as i32,
        mirror_margins: facts.two_sided,
        rtl_gutter: facts.two_sided && binding_right && gutter > 0,
        vertical_align: resolve_valign(group),
        line_numbers: resolve_lines(facts),
        numbering: facts.numbering,
        page_num_start: find_reset(group),
        number_in_header: facts.number_at_top,
        number_jc: resolve_number_jc(facts.number_x, facts.ltr),
        header: content_of(facts.header),
        header_suppressed: facts.header == Marginal::Suppressed,
        footer: content_of(facts.footer),
        footer_suppressed: facts.footer == Marginal::Suppressed,
        background: visible_overlay(facts.background),
        foreground: visible_overlay(facts.foreground),
        background_color: facts.fill,
        hyphenate: match facts.hyphenate {
            Some(v) => v,
            None => facts.justify,
        },
    }
}

fn resolve_number_jc(x: Option<HAlign>, ltr: bool) -> (r: Option<Jc>)
    ensures
        r == number_jc_of(x, ltr),
{
    match x {
        None => None,
        Some(HAlign::Center) => Some(Jc::Center),
        Some(HAlign::Left) => Some(Jc::Start),
        Some(HAlign::Right) => Some(Jc::End),
        Some(HAlign::Start) => Some(
            if ltr {
                Jc::Start
            } else {
                Jc::End
            },
        ),
        Some(HAlign::End) => Some(
            if ltr {
                Jc::End
            } else {
                Jc::Start
            },
        ),
    }
}

fn content_of(m: Marginal) -> (r: Option<ContentId>)
    ensures
        r == marginal_content(m),
{
    match m {
        Marginal::Content(c) => Some(c),
        _ => None,
    }
}

fn visible_overlay(o: Option<Overlay>) -> (r: Option<ContentId>)
    ensures
        r == overlay_content(o),
{
    match o {
        Some(v) => if v.empty {
            None
        } else {
            Some(v.content)
        },
        None => None,
    }
}

} // verus!
