//! Boxes around blocks: shading, borders, insets and panels.

use vstd::prelude::*;

use crate::ctx::state::DocxCtx;
use crate::dom::{
    Block, Cell, CellBorders, CellMargins, Indent, Para, ParaBorder, ParaBorders, ParaChild,
    ParaProps, Row, RowHeight, Spacing, Tbl, TblProps, VAlign,
};
use crate::length::{POINT, Rel, abs_to_twip, add_sat, sat32, twips};
use crate::props::{
    BorderLook, BordersLook, FlowLook, ParaLook, flow_look, flow_looks, opt_border, opt_borders,
};

verus! {

/// The stroke of one side of a box.
#[derive(Debug)]
pub struct SideStroke {
    /// The color of a solid paint.
    pub color: Option<[u8; 3]>,
    /// The lengths of the dash pattern.
    pub dash: Option<Vec<i64>>,
    /// Width in eighths of a point.
    pub sz: u32,
}

/// The strokes of the sides of a box.
#[derive(Debug)]
pub struct SideStrokes {
    pub top: Option<SideStroke>,
    pub left: Option<SideStroke>,
    pub bottom: Option<SideStroke>,
    pub right: Option<SideStroke>,
}

/// The strokes that a shape was given.
#[derive(Debug)]
pub enum ShapeStrokes {
    /// Those it was given.
    Custom(SideStrokes),
    /// None of its own: a filled shape has no stroke, and one without a fill has
    /// the default stroke on every side.
    Auto,
}

fn no_strokes() -> (r: SideStrokes)
    ensures
        r == (SideStrokes { top: None, left: None, bottom: None, right: None }),
{
    SideStrokes { top: None, left: None, bottom: None, right: None }
}

fn default_stroke(sz: u32) -> (r: Option<SideStroke>)
    ensures
        r == Some(SideStroke { color: Some([0u8, 0u8, 0u8]), dash: None, sz }),
{
    Some(SideStroke { color: Some([0u8, 0u8, 0u8]), dash: None, sz })
}

/// The strokes of a shape's sides.
pub open spec fn stroke_sides(strokes: ShapeStrokes, filled: bool, default_sz: u32) -> SideStrokes {
    match strokes {
        ShapeStrokes::Custom(sides) => sides,
        ShapeStrokes::Auto => if filled {
            SideStrokes { top: None, left: None, bottom: None, right: None }
        } else {
            let side = Some(
                SideStroke { color: Some([0u8, 0u8, 0u8]), dash: None, sz: default_sz },
            );
            SideStrokes { top: side, left: side, bottom: side, right: side }
        },
    }
}

/// The strokes of a shape's sides; the default stroke is black and `default_sz`
/// wide.
pub fn shape_stroke_sides(strokes: ShapeStrokes, filled: bool, default_sz: u32) -> (r: SideStrokes)
    ensures
        r == (match strokes {
            ShapeStrokes::Custom(sides) => sides,
            ShapeStrokes::Auto => if filled {
                SideStrokes { top: None, left: None, bottom: None, right: None }
            } else {
                let side = Some(
                    SideStroke { color: Some([0u8, 0u8, 0u8]), dash: None, sz: default_sz },
                );
                SideStrokes { top: side, left: side, bottom: side, right: side }
            },
        }),
        r == stroke_sides(strokes, filled, default_sz),
{
    match strokes {
        ShapeStrokes::Custom(sides) => sides,
        ShapeStrokes::Auto => {
            if filled {
                no_strokes()
            } else {
                SideStrokes {
                    top: default_stroke(default_sz),
                    left: default_stroke(default_sz),
                    bottom: default_stroke(default_sz),
                    right: default_stroke(default_sz),
                }
            }
        }
    }
}

/// Whether a box or block shows nothing of its own: no fill, no clip, no stroke.
pub open spec fn plain(filled: bool, clipped: bool, strokes: SideStrokes) -> bool {
    !filled && !clipped && strokes.top is None && strokes.left is None && strokes.bottom is None
        && strokes.right is None
}

/// Whether a box or block shows nothing of its own.
pub fn is_plain(filled: bool, clipped: bool, strokes: &SideStrokes) -> (r: bool)
    ensures
        r == plain(filled, clipped, *strokes),
{
    !filled && !clipped && strokes.top.is_none() && strokes.left.is_none()
        && strokes.bottom.is_none() && strokes.right.is_none()
}

/// Whether a dash pattern draws dots: its first segment is at most a point long.
pub open spec fn dots(pattern: Seq<i64>) -> bool {
    pattern.len() > 0 && pattern[0] <= POINT
}

/// The style of a border with the given dash pattern.
pub open spec fn border_style(dash: Option<Vec<i64>>) -> Seq<char> {
    match dash {
        Some(pattern) => if dots(pattern@) {
            "dotted"@
        } else {
            "dashed"@
        },
        None => "single"@,
    }
}

/// What the border of a stroked side says.
pub open spec fn side_look(stroke: SideStroke) -> BorderLook {
    BorderLook {
        style: border_style(stroke.dash),
        sz: stroke.sz,
        space: 4,
        color: match stroke.color {
            Some(color) => color,
            None => [0, 0, 0],
        },
    }
}

/// What the border of a side says, if it is stroked.
pub open spec fn opt_side(stroke: Option<SideStroke>) -> Option<BorderLook> {
    match stroke {
        Some(s) => Some(side_look(s)),
        None => None,
    }
}

/// The border of a stroked side.
pub fn side_border(stroke: &SideStroke) -> (r: ParaBorder)
    ensures
        r@ == side_look(*stroke),
{
    let style: &'static str = match &stroke.dash {
        Some(pattern) => if pattern.len() > 0 && pattern[0] <= POINT {
            "dotted"
        } else {
            "dashed"
        },
        None => "single",
    };
    let color: [u8; 3] = match stroke.color {
        Some(color) => color,
        None => [0, 0, 0],
    };
    ParaBorder { style, sz: stroke.sz, space: 4, color }
}

fn opt_side_border(stroke: &Option<SideStroke>) -> (r: Option<ParaBorder>)
    ensures
        opt_border(r) == opt_side(*stroke),
{
    match stroke {
        Some(s) => Some(side_border(s)),
        None => None,
    }
}

/// What the borders of stroked sides say; `None` when no side is stroked.
pub open spec fn borders_of(strokes: SideStrokes) -> Option<BordersLook> {
    if strokes.top is None && strokes.left is None && strokes.bottom is None
        && strokes.right is None {
        None
    } else {
        Some(
            BordersLook {
                top: opt_side(strokes.top),
                left: opt_side(strokes.left),
                bottom: opt_side(strokes.bottom),
                right: opt_side(strokes.right),
            },
        )
    }
}

/// The paragraph borders of stroked sides; `None` when no side is stroked.
pub fn block_borders(strokes: &SideStrokes) -> (r: Option<ParaBorders>)
    ensures
        opt_borders(r) == borders_of(*strokes),
{
    let borders: ParaBorders = ParaBorders {
        top: opt_side_border(&strokes.top),
        left: opt_side_border(&strokes.left),
        bottom: opt_side_border(&strokes.bottom),
        right: opt_side_border(&strokes.right),
    };
    if borders.is_empty() {
        None
    } else {
        Some(borders)
    }
}

/// Whether some sides are stroked and others are not.
pub fn stroke_sides_nonuniform(strokes: &SideStrokes) -> (r: bool)
    ensures
        r == ((strokes.top is Some || strokes.right is Some || strokes.bottom is Some
            || strokes.left is Some) && !(strokes.top is Some && strokes.right is Some
            && strokes.bottom is Some && strokes.left is Some)),
{
    let top: bool = strokes.top.is_some();
    let right: bool = strokes.right.is_some();
    let bottom: bool = strokes.bottom.is_some();
    let left: bool = strokes.left.is_some();
    (top || right || bottom || left) && !(top && right && bottom && left)
}

/// Insets in twips; absent where they are zero.
#[derive(Debug, Copy, Clone, PartialEq, Eq, Structural)]
pub struct Insets {
    pub left: Option<i32>,
    pub right: Option<i32>,
    pub top: Option<i32>,
    pub bottom: Option<i32>,
}

/// A length in twips; `None` when it is zero.
pub open spec fn nonzero(length: i64) -> Option<i32> {
    if twips(length as int) != 0 {
        Some(twips(length as int))
    } else {
        None
    }
}

/// A length in twips; `None` when it is zero.
pub fn nonzero_twip(length: i64) -> (r: Option<i32>)
    ensures
        r == nonzero(length),
{
    let t: i32 = abs_to_twip(length);
    if t != 0 {
        Some(t)
    } else {
        None
    }
}

/// The insets of the lengths of the sides, where they are set.
pub fn resolve_insets(
    left: Option<i64>,
    right: Option<i64>,
    top: Option<i64>,
    bottom: Option<i64>,
) -> (r: Insets)
    ensures
        r.left == (match left {
            Some(x) => nonzero(x),
            None => None,
        }),
        r.right == (match right {
            Some(x) => nonzero(x),
            None => None,
        }),
        r.top == (match top {
            Some(x) => nonzero(x),
            None => None,
        }),
        r.bottom == (match bottom {
            Some(x) => nonzero(x),
            None => None,
        }),
{
    Insets {
        left: match left {
            Some(x) => nonzero_twip(x),
            None => None,
        },
        right: match right {
            Some(x) => nonzero_twip(x),
            None => None,
        },
        top: match top {
            Some(x) => nonzero_twip(x),
            None => None,
        },
        bottom: match bottom {
            Some(x) => nonzero_twip(x),
            None => None,
        },
    }
}

/// The sum of two optional values; `None` only when both are absent.
pub open spec fn opt_sum(a: Option<i32>, b: Option<i32>) -> Option<i32> {
    match (a, b) {
        (None, None) => None,
        (Some(x), None) => Some(x),
        (None, Some(y)) => Some(y),
        (Some(x), Some(y)) => Some(sat32(x + y)),
    }
}

/// The sum of two optional values; `None` only when both are absent.
pub fn sum_opt(a: Option<i32>, b: Option<i32>) -> (r: Option<i32>)
    ensures
        r == opt_sum(a, b),
{
    match (a, b) {
        (None, None) => None,
        (Some(x), None) => Some(x),
        (None, Some(y)) => Some(y),
        (Some(x), Some(y)) => Some(add_sat(x, y)),
    }
}

/// What a box puts onto its paragraphs.
#[derive(Debug, Copy, Clone)]
pub struct BoxLook {
    pub shd_fill: Option<[u8; 3]>,
    pub pbdr: Option<ParaBorders>,
    pub insets: Insets,
    pub above: Option<i32>,
    pub below: Option<i32>,
}

/// Whether a block is a paragraph.
pub open spec fn is_para(block: FlowLook) -> bool {
    block is Para
}

/// The number of paragraphs among the first `n` blocks.
pub open spec fn paras_before(blocks: Seq<FlowLook>, n: int) -> nat
    decreases n,
{
    if n <= 0 {
        0
    } else if is_para(blocks[n - 1]) {
        paras_before(blocks, n - 1) + 1
    } else {
        paras_before(blocks, n - 1)
    }
}

/// Where a paragraph stands in its box.
pub struct Place {
    /// Whether it is the first paragraph.
    pub first: bool,
    /// Whether it is the last paragraph.
    pub last: bool,
    /// Whether it stays with the next block: the box holds several paragraphs
    /// and this is not its last block.
    pub keeps_next: bool,
    /// Whether the box holds several paragraphs.
    pub several: bool,
}

/// Where the paragraph at `i` stands.
pub open spec fn place_of(blocks: Seq<FlowLook>, i: int) -> Place {
    let count = paras_before(blocks, blocks.len() as int);
    Place {
        first: paras_before(blocks, i) == 0,
        last: paras_before(blocks, i) + 1 == count,
        keeps_next: i != blocks.len() - 1,
        several: count > 1,
    }
}

/// Spacing with something added above and below.
pub open spec fn spaced(base: Option<Spacing>, before: Option<i32>, after: Option<i32>) -> Option<
    Spacing,
> {
    if before is None && after is None {
        base
    } else {
        let s = match base {
            Some(s) => s,
            None => Spacing {
                before: None,
                after: None,
                line: None,
                line_rule_auto: false,
                line_rule_at_least: false,
            },
        };
        Some(
            Spacing {
                before: match before {
                    Some(b) => Some(
                        sat32(
                            (match s.before {
                                Some(x) => x,
                                None => 0,
                            }) + b,
                        ),
                    ),
                    None => s.before,
                },
                after: match after {
                    Some(a) => Some(
                        sat32(
                            (match s.after {
                                Some(x) => x,
                                None => 0,
                            }) + a,
                        ),
                    ),
                    None => s.after,
                },
                ..s
            },
        )
    }
}

/// Indentation with what is not set taken from insets.
pub open spec fn inset_by(base: Option<Indent>, left: Option<i32>, right: Option<i32>) -> Option<
    Indent,
> {
    if left is None && right is None {
        base
    } else {
        let ind = match base {
            Some(i) => i,
            None => Indent { left: None, right: None, first_line: None, hanging: None },
        };
        Some(
            Indent {
                left: if ind.left is Some {
                    ind.left
                } else {
                    left
                },
                right: if ind.right is Some {
                    ind.right
                } else {
                    right
                },
                ..ind
            },
        )
    }
}

/// The formatting of a paragraph in a box. Equal shading and borders make
/// adjacent paragraphs one visual box.
pub open spec fn boxed(p: ParaLook, look: BoxLook, place: Place) -> ParaLook {
    let framed = look.shd_fill is Some || look.pbdr is Some;
    ParaLook {
        shd_fill: if p.shd_fill is Some {
            p.shd_fill
        } else {
            look.shd_fill
        },
        pbdr: if p.pbdr is Some {
            p.pbdr
        } else {
            opt_borders(look.pbdr)
        },
        keep_lines: p.keep_lines || (framed && place.several),
        keep_next: p.keep_next || (framed && place.several && place.keeps_next),
        ind: inset_by(p.ind, look.insets.left, look.insets.right),
        spacing: spaced(
            p.spacing,
            if place.first {
                opt_sum(look.above, look.insets.top)
            } else {
                None
            },
            if place.last {
                opt_sum(look.below, look.insets.bottom)
            } else {
                None
            },
        ),
        ..p
    }
}

/// The block at `i` of a box.
pub open spec fn boxed_block(blocks: Seq<FlowLook>, i: int, look: BoxLook) -> FlowLook {
    match blocks[i] {
        FlowLook::Para { props, content } => FlowLook::Para {
            props: boxed(props, look, place_of(blocks, i)),
            content,
        },
        FlowLook::Other(_) => blocks[i],
    }
}

fn add_spacing(base: Option<Spacing>, before: Option<i32>, after: Option<i32>) -> (r: Option<
    Spacing,
>)
    ensures
        r == spaced(base, before, after),
{
    if before.is_none() && after.is_none() {
        return base;
    }
    let mut s: Spacing = match base {
        Some(s) => s,
        None => Spacing::default(),
    };
    if let Some(b) = before {
        s.before = Some(
            add_sat(
                match s.before {
                    Some(x) => x,
                    None => 0,
                },
                b,
            ),
        );
    }
    if let Some(a) = after {
        s.after = Some(
            add_sat(
                match s.after {
                    Some(x) => x,
                    None => 0,
                },
                a,
            ),
        );
    }
    Some(s)
}

fn add_inset(base: Option<Indent>, left: Option<i32>, right: Option<i32>) -> (r: Option<Indent>)
    ensures
        r == inset_by(base, left, right),
{
    if left.is_none() && right.is_none() {
        return base;
    }
    let mut ind: Indent = match base {
        Some(i) => i,
        None => Indent::default(),
    };
    if ind.left.is_none() {
        ind.left = left;
    }
    if ind.right.is_none() {
        ind.right = right;
    }
    Some(ind)
}

fn box_props(
    p: &mut ParaProps,
    look: &BoxLook,
    first: bool,
    last: bool,
    keeps_next: bool,
    several: bool,
)
    ensures
        final(p)@ == boxed(old(p)@, *look, Place { first, last, keeps_next, several }),
{
    let framed: bool = look.shd_fill.is_some() || look.pbdr.is_some();
    let before: Option<i32> = if first {
        sum_opt(look.above, look.insets.top)
    } else {
        None
    };
    let after: Option<i32> = if last {
        sum_opt(look.below, look.insets.bottom)
    } else {
        None
    };
    let shd_fill: Option<[u8; 3]> = if p.shd_fill.is_some() {
        p.shd_fill
    } else {
        look.shd_fill
    };
    let pbdr: Option<ParaBorders> = if p.pbdr.is_some() {
        p.pbdr
    } else {
        look.pbdr
    };
    p.shd_fill = shd_fill;
    p.pbdr = pbdr;
    p.keep_lines = p.keep_lines || (framed && several);
    p.keep_next = p.keep_next || (framed && several && keeps_next);
    p.ind = add_inset(p.ind, look.insets.left, look.insets.right);
    p.spacing = add_spacing(p.spacing, before, after);
}

fn count_paras(blocks: &Vec<Block>) -> (r: usize)
    ensures
        r == paras_before(flow_looks(blocks@), blocks@.len() as int),
{
    let mut n: usize = 0;
    let mut i: usize = 0;
    while i < blocks.len()
        invariant
            i <= blocks@.len(),
            n <= i,
            n == paras_before(flow_looks(blocks@), i as int),
        decreases blocks@.len() - i,
    {
        assert(flow_looks(blocks@)[i as int] == flow_look(blocks@[i as int]));
        if let Block::Para(_) = &blocks[i] {
            n = n + 1;
        }
        i = i + 1;
    }
    n
}

/// Puts a box's shading, borders, insets and the space around it onto its
/// paragraphs.
pub fn stamp_box_decorations(inner: &mut Vec<Block>, look: &BoxLook)
    ensures
        final(inner)@.len() == old(inner)@.len(),
        forall|i: int|
            0 <= i < final(inner)@.len() ==> flow_look(#[trigger] final(inner)@[i]) == boxed_block(
                flow_looks(old(inner)@),
                i,
                *look,
            ),
{
    let ghost before = flow_looks(inner@);
    let count: usize = count_paras(inner);
    let n: usize = inner.len();
    let mut seen: usize = 0;
    let mut i: usize = 0;
    while i < n
        invariant
            i <= n,
            n == inner@.len(),
            n == old(inner)@.len(),
            before == flow_looks(old(inner)@),
            count == paras_before(before, n as int),
            seen <= i,
            seen == paras_before(before, i as int),
            forall|k: int|
                0 <= k < i ==> flow_look(#[trigger] inner@[k]) == boxed_block(before, k, *look),
            forall|k: int| i <= k < n ==> #[trigger] inner@[k] == old(inner)@[k],
        decreases n - i,
    {
        assert(before[i as int] == flow_look(old(inner)@[i as int]));
        if let Block::Para(para) = &mut inner[i] {
            let first: bool = seen == 0;
            let last: bool = seen + 1 == count;
            box_props(&mut para.props, look, first, last, i != n - 1, count > 1);
            seen = seen + 1;
        }
        i = i + 1;
    }
}

/// The fill of a block.
#[derive(Debug, Copy, Clone, PartialEq, Eq)]
pub enum BlockFill {
    Unfilled,
    Solid([u8; 3]),
    /// A gradient and its representative color.
    Gradient(Option<[u8; 3]>),
    Tiling,
}

/// The geometry and the frame of a block.
#[derive(Debug)]
pub struct BlockFacts {
    pub fill: BlockFill,
    pub strokes: SideStrokes,
    pub width: Option<Rel>,
    pub height: Option<Rel>,
    pub inset_left: Option<i64>,
    pub inset_right: Option<i64>,
    pub inset_top: Option<i64>,
    pub inset_bottom: Option<i64>,
    pub above: Option<i64>,
    pub below: Option<i64>,
}

/// The height of a block whose height is set.
pub open spec fn block_height(ctx: DocxCtx, facts: BlockFacts) -> Option<i64> {
    match facts.height {
        Some(rel) => Some(
            rel.at(
                match ctx.shape_height_base {
                    Some(base) => base,
                    None => ctx.available_height,
                },
            ),
        ),
        None => None,
    }
}

/// Whether a block becomes a panel of its own height: it has a solid fill and a
/// height of at most three fifths of the available one.
pub open spec fn becomes_panel(ctx: DocxCtx, facts: BlockFacts) -> bool {
    facts.fill is Solid && match block_height(ctx, facts) {
        Some(height) => height > 0 && 5 * height <= 3 * ctx.available_height,
        None => false,
    }
}

/// At least one.
pub open spec fn at_least_one(x: i32) -> i32 {
    if x < 1 {
        1
    } else {
        x
    }
}

/// The width of a panel in twips.
pub open spec fn panel_width(ctx: DocxCtx, facts: BlockFacts) -> i32 {
    at_least_one(
        twips(
            (match facts.width {
                Some(rel) => rel.at(ctx.available_width),
                None => ctx.available_width,
            }) as int,
        ),
    )
}

/// Whether `blocks` are `inner`, ended by a paragraph.
pub open spec fn ends_with_para(blocks: Seq<Block>, inner: Seq<Block>) -> bool {
    if inner.len() > 0 && inner.last() is Para {
        blocks == inner
    } else {
        &&& blocks.len() == inner.len() + 1
        &&& blocks.drop_last() == inner
        &&& match blocks.last() {
            Block::Para(para) => para.content@.len() == 0 && para.props.is_default(),
            _ => false,
        }
    }
}

/// Whether a block is a panel: a table of one cell that is at least as high as
/// asked for.
pub open spec fn is_panel(
    block: Block,
    width: i32,
    height: i32,
    color: [u8; 3],
    inner: Seq<Block>,
) -> bool {
    match block {
        Block::Table(tbl) => {
            &&& tbl.props.width_dxa == Some(width)
            &&& tbl.props.style is None
            &&& tbl.props.jc is None
            &&& tbl.props.ind_dxa is None
            &&& tbl.grid@ == seq![width]
            &&& tbl.rows@.len() == 1
            &&& !tbl.rows@[0].header
            &&& tbl.rows@[0].cant_split
            &&& tbl.rows@[0].height == Some(RowHeight { val: height, exact: false })
            &&& tbl.rows@[0].cells@.len() == 1
            &&& {
                let cell = tbl.rows@[0].cells@[0];
                &&& cell.w_dxa == Some(width)
                &&& cell.grid_span == 1
                &&& cell.v_merge is None
                &&& cell.borders.top is None && cell.borders.left is None && cell.borders.bottom
                    is None && cell.borders.right is None
                &&& cell.shd_fill == Some(color)
                &&& cell.margins == (CellMargins { top: 0, right: 0, bottom: 0, left: 0 })
                &&& cell.valign == Some(VAlign::Top)
                &&& ends_with_para(cell.blocks@, inner)
            }
        },
        _ => false,
    }
}

/// What a block puts onto its paragraphs.
pub open spec fn block_look(facts: BlockFacts, look: BoxLook) -> bool {
    &&& look.shd_fill == (match facts.fill {
        BlockFill::Solid(color) => Some(color),
        BlockFill::Gradient(color) => color,
        _ => None,
    })
    &&& opt_borders(look.pbdr) == borders_of(facts.strokes)
    &&& look.insets.left == (match facts.inset_left {
        Some(x) => nonzero(x),
        None => None,
    })
    &&& look.insets.right == (match facts.inset_right {
        Some(x) => nonzero(x),
        None => None,
    })
    &&& look.insets.top == (match facts.inset_top {
        Some(x) => nonzero(x),
        None => None,
    })
    &&& look.insets.bottom == (match facts.inset_bottom {
        Some(x) => nonzero(x),
        None => None,
    })
    &&& look.above == (match facts.above {
        Some(x) => Some(twips(x as int)),
        None => None,
    })
    &&& look.below == (match facts.below {
        Some(x) => Some(twips(x as int)),
        None => None,
    })
}

fn panel(width: i32, height: i32, color: [u8; 3], inner: Vec<Block>) -> (r: Block)
    ensures
        is_panel(r, width, height, color, inner@),
{
    let mut blocks: Vec<Block> = inner;
    let n: usize = blocks.len();
    let ends: bool = n > 0 && match &blocks[n - 1] {
        Block::Para(_) => true,
        _ => false,
    };
    if !ends {
        blocks.push(Block::Para(Para { props: ParaProps::default(), content: Vec::new() }));
        assert(blocks@.drop_last() =~= inner@);
    }
    let mut grid: Vec<i32> = Vec::new();
    grid.push(width);
    let mut cells: Vec<Cell> = Vec::new();
    cells.push(
        Cell {
            w_dxa: Some(width),
            grid_span: 1,
            v_merge: None,
            borders: CellBorders::default(),
            shd_fill: Some(color),
            margins: CellMargins::default(),
            valign: Some(VAlign::Top),
            blocks,
        },
    );
    let mut rows: Vec<Row> = Vec::new();
    rows.push(
        Row {
            header: false,
            cant_split: true,
            height: Some(RowHeight { val: height, exact: false }),
            cells,
        },
    );
    assert(grid@ =~= seq![width]);
    Block::Table(
        Tbl {
            props: TblProps { width_dxa: Some(width), style: None, jc: None, ind_dxa: None },
            grid,
            rows,
        },
    )
}

/// What a block puts onto its paragraphs.
pub fn block_box_look(facts: &BlockFacts) -> (r: BoxLook)
    ensures
        block_look(*facts, r),
{
    BoxLook {
        shd_fill: match facts.fill {
            BlockFill::Solid(color) => Some(color),
            BlockFill::Gradient(color) => color,
            _ => None,
        },
        pbdr: block_borders(&facts.strokes),
        insets: resolve_insets(
            facts.inset_left,
            facts.inset_right,
            facts.inset_top,
            facts.inset_bottom,
        ),
        above: match facts.above {
            Some(x) => Some(abs_to_twip(x)),
            None => None,
        },
        below: match facts.below {
            Some(x) => Some(abs_to_twip(x)),
            None => None,
        },
    }
}

impl DocxCtx {
    /// Adds the blocks of a block's body: in a panel of its own height, or as
    /// paragraphs that carry the block's frame.
    pub fn handle_block_box(&self, facts: &BlockFacts, inner: Vec<Block>, out: &mut Vec<Block>)
        ensures
            final(out)@.len() >= old(out)@.len(),
            final(out)@.take(old(out)@.len() as int) == old(out)@,
            ({
                let added = final(out)@.skip(old(out)@.len() as int);
                if becomes_panel(*self, *facts) {
                    &&& added.len() == 1
                    &&& is_panel(
                        added[0],
                        panel_width(*self, *facts),
                        at_least_one(twips(block_height(*self, *facts)->0 as int)),
                        facts.fill->Solid_0,
                        inner@,
                    )
                } else {
                    &&& added.len() == inner@.len()
                    &&& exists|look: BoxLook|
                        {
                            &&& #[trigger] block_look(*facts, look)
                            &&& forall|i: int|
                                0 <= i < added.len() ==> flow_look(#[trigger] added[i])
                                    == boxed_block(flow_looks(inner@), i, look)
                        }
                }
            }),
    {
        let ghost before = out@;
        let height: Option<i64> = match facts.height {
            Some(rel) => {
                let base: i64 = match self.shape_height_base {
                    Some(base) => base,
                    None => self.available_height,
                };
                Some(rel.relative_to(base))
            },
            None => None,
        };
        if let (BlockFill::Solid(color), Some(height)) = (facts.fill, height) {
            if height > 0 && 5 * (height as i128) <= 3 * (self.available_height as i128) {
                let width: i64 = match facts.width {
                    Some(rel) => rel.relative_to(self.available_width),
                    None => self.available_width,
                };
                let width_dxa: i32 = abs_to_twip(width);
                let height_dxa: i32 = abs_to_twip(height);
                let width_dxa: i32 = if width_dxa < 1 {
                    1
                } else {
                    width_dxa
                };
                let height_dxa: i32 = if height_dxa < 1 {
                    1
                } else {
                    height_dxa
                };
                out.push(panel(width_dxa, height_dxa, color, inner));
                assert(out@.take(before.len() as int) =~= before);
                return;
            }
        }
        let look: BoxLook = block_box_look(facts);
        let mut blocks: Vec<Block> = inner;
        stamp_box_decorations(&mut blocks, &look);
        let ghost stamped = blocks@;
        out.append(&mut blocks);
        proof {
            assert(out@.take(before.len() as int) =~= before);
            assert(out@.skip(before.len() as int) =~= stamped);
            assert(block_look(*facts, look));
        }
    }
}

/// The index of the first paragraph from `i` on, or the length.
pub open spec fn first_para(blocks: Seq<FlowLook>, i: int) -> int
    decreases blocks.len() - i,
{
    if 0 <= i < blocks.len() && !is_para(blocks[i]) {
        first_para(blocks, i + 1)
    } else {
        i
    }
}

/// The index of the last paragraph among the first `n` blocks, or -1.
pub open spec fn last_para(blocks: Seq<FlowLook>, n: int) -> int
    decreases n,
{
    if n <= 0 {
        -1
    } else if is_para(blocks[n - 1]) {
        n - 1
    } else {
        last_para(blocks, n - 1)
    }
}

/// Whether `after` is `before` between the two marks of a bookmark, on the first
/// and the last paragraph from `from` on.
pub open spec fn bracketed(
    before: Seq<Block>,
    after: Seq<Block>,
    from: int,
    id: u32,
    name: Seq<char>,
) -> bool {
    let looks = flow_looks(before);
    let first = first_para(looks, from);
    let last = last_para(looks, looks.len() as int);
    &&& after.len() == before.len()
    &&& if first >= before.len() {
        after == before
    } else {
        forall|i: int|
            0 <= i < before.len() ==> is_bracketed(
                flow_look(before[i]),
                flow_look(#[trigger] after[i]),
                i == first,
                i == last,
                id,
                name,
            )
    }
}

/// Whether one block is another one with the marks of a bookmark added.
pub open spec fn is_bracketed(
    before: FlowLook,
    after: FlowLook,
    starts: bool,
    ends: bool,
    id: u32,
    name: Seq<char>,
) -> bool {
    match (before, after) {
        (
            FlowLook::Para { props: p, content: c },
            FlowLook::Para { props: q, content: d },
        ) => {
            let lead: int = if starts {
                1
            } else {
                0
            };
            let trail: int = if ends {
                1
            } else {
                0
            };
            &&& p == q
            &&& d.len() == c.len() + lead + trail
            &&& d.subrange(lead, lead + c.len()) == c
            &&& starts ==> (d[0] matches ParaChild::BookmarkStart { id: i, name: n } && i == id
                && n@ == name)
            &&& ends ==> d.last() == (ParaChild::BookmarkEnd { id })
        },
        _ => before == after,
    }
}

fn find_first_para(blocks: &Vec<Block>, from: usize) -> (r: usize)
    requires
        from <= blocks@.len(),
    ensures
        r == first_para(flow_looks(blocks@), from as int),
        from <= r <= blocks@.len(),
        r < blocks@.len() ==> blocks@[r as int] is Para,
{
    let mut i: usize = from;
    while i < blocks.len()
        invariant
            from <= i <= blocks@.len(),
            first_para(flow_looks(blocks@), from as int) == first_para(
                flow_looks(blocks@),
                i as int,
            ),
        decreases blocks@.len() - i,
    {
        assert(flow_looks(blocks@)[i as int] == flow_look(blocks@[i as int]));
        if let Block::Para(_) = &blocks[i] {
            return i;
        }
        i = i + 1;
    }
    i
}

fn find_last_para(blocks: &Vec<Block>, least: usize) -> (r: usize)
    requires
        least < blocks@.len(),
        blocks@[least as int] is Para,
    ensures
        r == last_para(flow_looks(blocks@), blocks@.len() as int),
        least <= r < blocks@.len(),
        blocks@[r as int] is Para,
{
    let mut i: usize = blocks.len();
    while i > least + 1
        invariant
            least < i <= blocks@.len(),
            blocks@[least as int] is Para,
            last_para(flow_looks(blocks@), blocks@.len() as int) == last_para(
                flow_looks(blocks@),
                i as int,
            ),
        decreases i,
    {
        assert(flow_looks(blocks@)[i - 1] == flow_look(blocks@[i - 1]));
        if let Block::Para(_) = &blocks[i - 1] {
            return i - 1;
        }
        i = i - 1;
    }
    assert(flow_looks(blocks@)[i - 1] == flow_look(blocks@[i - 1]));
    least
}

/// Puts a bookmark around blocks: its start into the first paragraph from `from`
/// on and its end into the last one, without adding a paragraph.
pub fn bracket_bookmark(blocks: &mut Vec<Block>, from: usize, id: u32, name: String)
    requires
        from <= old(blocks)@.len(),
    ensures
        bracketed(old(blocks)@, final(blocks)@, from as int, id, name@),
{
    let ghost before = blocks@;
    let first: usize = find_first_para(blocks, from);
    if first >= blocks.len() {
        return;
    }
    let last: usize = find_last_para(blocks, first);
    let ghost text = name@;
    if let Block::Para(para) = &mut blocks[first] {
        para.content.insert(0, ParaChild::BookmarkStart { id, name });
    }
    let ghost mid = blocks@;
    if let Block::Para(para) = &mut blocks[last] {
        para.content.push(ParaChild::BookmarkEnd { id });
    }
    assert forall|i: int| 0 <= i < before.len() implies is_bracketed(
        flow_look(before[i]),
        flow_look(#[trigger] blocks@[i]),
        i == first,
        i == last,
        id,
        text,
    ) by {
        if let (Block::Para(p), Block::Para(q)) = (before[i], blocks@[i]) {
            let lead: int = if i == first {
                1
            } else {
                0
            };
            assert(q.content@.subrange(lead, lead + p.content@.len()) =~= p.content@);
        }
    }
}

} // verus!
