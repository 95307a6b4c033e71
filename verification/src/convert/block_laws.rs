//! What boxes, quotes, padding and titles put onto blocks.

use vstd::prelude::*;

use crate::content::{Class, Content, holds_class};
use crate::convert::blocks::{
    FramedRoute, LayoutRoute, attribution_look, framed_route, layout_route, marks_here, padded,
    quoted, title_look,
};
use crate::convert::boxes::{
    BlockFacts, BoxLook, ShapeStrokes, SideStroke, SideStrokes, becomes_panel, block_look,
    borders_of, boxed_block, bracketed, first_para, is_panel, last_para, panel_width,
    paras_before, plain, side_look, stroke_sides,
};
use crate::convert::predicates::{extractable, is_flow_container, is_framed, wraps_figure};
use crate::ctx::state::DocxCtx;
use crate::dom::{Block, Indent, Jc, ParaChild, ReviewOrigin, Spacing};
use crate::length::twips;
use crate::props::{FlowLook, flow_look, flow_looks, opt_borders};

verus! {

// -- Boxes -------------------------------------------------------------------

proof fn lemma_paras_before(blocks: Seq<FlowLook>, n: int)
    requires
        0 <= n <= blocks.len(),
    ensures
        paras_before(blocks, n) == 0 <==> forall|j: int|
            0 <= j < n ==> !((#[trigger] blocks[j]) is Para),
    decreases n,
{
    if n > 0 {
        lemma_paras_before(blocks, n - 1);
        if forall|j: int| 0 <= j < n ==> !((#[trigger] blocks[j]) is Para) {
            assert(!(blocks[n - 1] is Para));
        }
    }
}

proof fn lemma_paras_between(blocks: Seq<FlowLook>, i: int, n: int)
    requires
        0 <= i < n <= blocks.len(),
        blocks[i] is Para,
    ensures
        paras_before(blocks, i) + 1 <= paras_before(blocks, n),
        paras_before(blocks, i) + 1 == paras_before(blocks, n) <==> forall|j: int|
            i < j < n ==> !((#[trigger] blocks[j]) is Para),
    decreases n - i,
{
    if i + 1 < n {
        lemma_paras_between(blocks, i, n - 1);
        if forall|j: int| i < j < n ==> !((#[trigger] blocks[j]) is Para) {
            assert(!(blocks[n - 1] is Para));
        }
    }
}

/// What an optional length adds up to.
pub open spec fn or_zero(x: Option<i32>) -> int {
    match x {
        Some(v) => v as int,
        None => 0,
    }
}

/// What spacing puts above a paragraph.
pub open spec fn space_above(s: Option<Spacing>) -> int {
    match s {
        Some(s) => or_zero(s.before),
        None => 0,
    }
}

/// What spacing puts below a paragraph.
pub open spec fn space_below(s: Option<Spacing>) -> int {
    match s {
        Some(s) => or_zero(s.after),
        None => 0,
    }
}

/// Whether a length fits into 32 bits.
pub open spec fn fits(x: int) -> bool {
    i32::MIN <= x <= i32::MAX
}

/// The first paragraph of a box gets the space above the box and its upper inset,
/// the last one the space below it and its lower inset, and no other paragraph gets
/// either. Blocks that are no paragraphs stay as they are.
pub proof fn boxes_space_their_ends(blocks: Seq<FlowLook>, i: int, look: BoxLook)
    requires
        0 <= i < blocks.len(),
        fits(or_zero(look.above) + or_zero(look.insets.top)),
        fits(or_zero(look.below) + or_zero(look.insets.bottom)),
    ensures
        !(blocks[i] is Para) ==> boxed_block(blocks, i, look) == blocks[i],
        blocks[i] is Para ==> {
            let old = blocks[i]->Para_props;
            let new = boxed_block(blocks, i, look)->Para_props;
            let first = forall|j: int| 0 <= j < i ==> !((#[trigger] blocks[j]) is Para);
            let last = forall|j: int| i < j < blocks.len() ==> !((#[trigger] blocks[j]) is Para);
            let above = or_zero(look.above) + or_zero(look.insets.top);
            let below = or_zero(look.below) + or_zero(look.insets.bottom);
            &&& boxed_block(blocks, i, look) is Para
            &&& boxed_block(blocks, i, look)->Para_content == blocks[i]->Para_content
            &&& first && fits(space_above(old.spacing) + above) ==> space_above(new.spacing)
                == space_above(old.spacing) + above
            &&& !first ==> space_above(new.spacing) == space_above(old.spacing)
            &&& last && fits(space_below(old.spacing) + below) ==> space_below(new.spacing)
                == space_below(old.spacing) + below
            &&& !last ==> space_below(new.spacing) == space_below(old.spacing)
        },
{
    if blocks[i] is Para {
        lemma_paras_before(blocks, i);
        lemma_paras_between(blocks, i, blocks.len() as int);
    }
}

/// Every paragraph of a box has its own shading and border or else that of the box,
/// its own indents or else the insets of the box, and stays with the others where
/// the box is framed and holds several.
pub proof fn boxes_frame_their_paragraphs(blocks: Seq<FlowLook>, i: int, look: BoxLook)
    requires
        0 <= i < blocks.len(),
        blocks[i] is Para,
    ensures
        ({
            let old = blocks[i]->Para_props;
            let new = boxed_block(blocks, i, look)->Para_props;
            let framed = look.shd_fill is Some || look.pbdr is Some;
            let several = exists|j: int|
                0 <= j < blocks.len() && j != i && (#[trigger] blocks[j]) is Para;
            &&& old.shd_fill is Some ==> new.shd_fill == old.shd_fill
            &&& old.shd_fill is None ==> new.shd_fill == look.shd_fill
            &&& old.pbdr is Some ==> new.pbdr == old.pbdr
            &&& old.pbdr is None ==> new.pbdr == opt_borders(look.pbdr)
            &&& new.keep_lines <==> old.keep_lines || (framed && several)
            &&& new.keep_next <==> old.keep_next || (framed && several && i != blocks.len() - 1)
            &&& (old.ind is Some && old.ind.unwrap().left is Some) ==> new.ind is Some
                && new.ind.unwrap().left == old.ind.unwrap().left
            &&& (old.ind is Some && old.ind.unwrap().right is Some) ==> new.ind is Some
                && new.ind.unwrap().right == old.ind.unwrap().right
            &&& (old.ind is None || old.ind.unwrap().left is None) && look.insets.left is Some
                ==> new.ind is Some && new.ind.unwrap().left == look.insets.left
            &&& (old.ind is None || old.ind.unwrap().right is None) && look.insets.right is Some
                ==> new.ind is Some && new.ind.unwrap().right == look.insets.right
            &&& new.style == old.style
            &&& new.jc == old.jc
            &&& new.num == old.num
        }),
{
    let n = blocks.len() as int;
    let several = exists|j: int| 0 <= j < n && j != i && (#[trigger] blocks[j]) is Para;
    lemma_paras_before(blocks, i);
    lemma_paras_between(blocks, i, n);
    if several {
        let j = choose|j: int| 0 <= j < n && j != i && (#[trigger] blocks[j]) is Para;
        if j < i {
            assert(paras_before(blocks, i) > 0);
        } else {
            assert(paras_before(blocks, i) + 1 < paras_before(blocks, n));
        }
    } else {
        assert forall|j: int| 0 <= j < i implies !((#[trigger] blocks[j]) is Para) by {}
        assert forall|j: int| i < j < n implies !((#[trigger] blocks[j]) is Para) by {}
    }
}

/// A box shades its paragraphs in its solid fill or the representative color of its
/// gradient, and puts what its sides, insets and spacing say onto them, each on its
/// own side.
pub proof fn boxes_look_as_stated(facts: BlockFacts, look: BoxLook)
    requires
        block_look(facts, look),
    ensures
        facts.fill is Solid ==> look.shd_fill == Some(facts.fill->Solid_0),
        facts.fill is Gradient ==> look.shd_fill == facts.fill->Gradient_0,
        facts.fill is Unfilled || facts.fill is Tiling ==> look.shd_fill is None,
        look.pbdr is None <==> facts.strokes.top is None && facts.strokes.left is None
            && facts.strokes.bottom is None && facts.strokes.right is None,
        facts.inset_left is Some ==> or_zero(look.insets.left) == twips(
            facts.inset_left.unwrap() as int,
        ),
        facts.inset_right is Some ==> or_zero(look.insets.right) == twips(
            facts.inset_right.unwrap() as int,
        ),
        facts.inset_top is Some ==> or_zero(look.insets.top) == twips(
            facts.inset_top.unwrap() as int,
        ),
        facts.inset_bottom is Some ==> or_zero(look.insets.bottom) == twips(
            facts.inset_bottom.unwrap() as int,
        ),
        facts.above is Some ==> or_zero(look.above) == twips(facts.above.unwrap() as int),
        facts.below is Some ==> or_zero(look.below) == twips(facts.below.unwrap() as int),
{
}

/// Each stroked side of a box has a border, and no other does. Its width and color
/// are those of the stroke, black without a color; it is solid without a dash
/// pattern, dotted where the pattern starts with at most a point, and dashed
/// otherwise.
pub proof fn strokes_become_borders(strokes: SideStrokes, stroke: SideStroke)
    ensures
        strokes.top is None && strokes.left is None && strokes.bottom is None
            && strokes.right is None <==> borders_of(strokes) is None,
        borders_of(strokes) is Some ==> {
            let b = borders_of(strokes).unwrap();
            &&& b.top is Some <==> strokes.top is Some
            &&& b.left is Some <==> strokes.left is Some
            &&& b.bottom is Some <==> strokes.bottom is Some
            &&& b.right is Some <==> strokes.right is Some
            &&& strokes.top is Some ==> b.top.unwrap().sz == strokes.top.unwrap().sz
            &&& strokes.left is Some ==> b.left.unwrap().sz == strokes.left.unwrap().sz
            &&& strokes.bottom is Some ==> b.bottom.unwrap().sz == strokes.bottom.unwrap().sz
            &&& strokes.right is Some ==> b.right.unwrap().sz == strokes.right.unwrap().sz
            &&& strokes.top is Some ==> b.top == Some(side_look(strokes.top.unwrap()))
            &&& strokes.left is Some ==> b.left == Some(side_look(strokes.left.unwrap()))
            &&& strokes.bottom is Some ==> b.bottom == Some(side_look(strokes.bottom.unwrap()))
            &&& strokes.right is Some ==> b.right == Some(side_look(strokes.right.unwrap()))
        },
        side_look(stroke).sz == stroke.sz,
        stroke.color is Some ==> side_look(stroke).color == stroke.color.unwrap(),
        stroke.color is None ==> side_look(stroke).color@ =~= seq![0u8, 0u8, 0u8],
        stroke.dash is None ==> side_look(stroke).style == "single"@,
        stroke.dash matches Some(d) ==> (d@.len() > 0 && d@[0] <= 1_000_000 ==> side_look(
            stroke,
        ).style == "dotted"@),
        stroke.dash matches Some(d) ==> (d@.len() == 0 || d@[0] > 1_000_000 ==> side_look(
            stroke,
        ).style == "dashed"@),
        plain(false, false, strokes) <==> borders_of(strokes) is None,
        !plain(true, false, strokes),
        !plain(false, true, strokes),
{
}

/// A container with a frame becomes paragraphs only if its body can be lowered and
/// its fill has a flat color. Without fill and border it keeps its insets around one
/// line and nothing around flowing content; with either it keeps its frame around
/// content that does not fit a text box, or where only some of its sides are
/// stroked.
pub proof fn framed_containers_go_their_way(c: Content, facts: BlockFacts)
    ensures
        framed_route(c, facts) != FramedRoute::Declined ==> c.children@.len() > 0 && (
        c.kind is Box || c.kind is Rect || c.kind is Square) && extractable(c.children@[0]) && !(
        facts.fill is Gradient) && !(facts.fill is Tiling),
        framed_route(c, facts) == FramedRoute::Label || framed_route(c, facts)
            == FramedRoute::Flow ==> facts.fill is Unfilled && facts.strokes.top is None
            && facts.strokes.left is None && facts.strokes.bottom is None
            && facts.strokes.right is None,
        framed_route(c, facts) == FramedRoute::Boxed ==> facts.fill is Solid
            || facts.strokes.top is Some || facts.strokes.left is Some
            || facts.strokes.bottom is Some || facts.strokes.right is Some,
        framed_route(c, facts) == FramedRoute::Label ==> !holds_class(
            c.children@[0],
            Class::Flowing,
        ) && !holds_class(c.children@[0], Class::Footnote) && !holds_class(
            c.children@[0],
            Class::TextBoxUnsafe,
        ),
        framed_route(c, facts) == FramedRoute::Flow ==> wraps_figure(c.children@[0])
            || is_flow_container(c.children@[0]),
        is_framed(c) && facts.fill is Solid && c.children@.len() > 0 && extractable(
            c.children@[0],
        ) && (holds_class(c.children@[0], Class::Flowing) || holds_class(
            c.children@[0],
            Class::Footnote,
        ) || holds_class(c.children@[0], Class::TextBoxUnsafe)) ==> framed_route(c, facts)
            == FramedRoute::Boxed,
        is_framed(c) && facts.fill is Solid && c.children@.len() > 0 && extractable(
            c.children@[0],
        ) && facts.strokes.left is Some && facts.strokes.right is None ==> framed_route(c, facts)
            == FramedRoute::Boxed,
{
}

// -- Quotes, padding, titles -------------------------------------------------

/// The left indent of a paragraph.
pub open spec fn left_of(ind: Option<Indent>) -> int {
    match ind {
        Some(i) => or_zero(i.left),
        None => 0,
    }
}

/// The right indent of a paragraph.
pub open spec fn right_of(ind: Option<Indent>) -> int {
    match ind {
        Some(i) => or_zero(i.right),
        None => 0,
    }
}

/// A paragraph of a quote has its own style or else that of quotes, and a block
/// quote moves both its sides in by the same length; its content stays.
pub proof fn quotes_are_indented(block: FlowLook, em: Option<i32>)
    ensures
        !(block is Para) ==> quoted(block, em) == block,
        block is Para ==> {
            let old = block->Para_props;
            let new = quoted(block, em)->Para_props;
            &&& quoted(block, em) is Para
            &&& quoted(block, em)->Para_content == block->Para_content
            &&& old.style is Some ==> new.style == old.style
            &&& old.style is None ==> new.style == Some("Quote"@)
            &&& em is None ==> new.ind == old.ind
            &&& em is Some && fits(left_of(old.ind) + em.unwrap()) ==> left_of(new.ind) == left_of(
                old.ind,
            ) + em.unwrap()
            &&& em is Some && fits(right_of(old.ind) + em.unwrap()) ==> right_of(new.ind)
                == right_of(old.ind) + em.unwrap()
            &&& new.jc == old.jc
            &&& new.spacing == old.spacing
            &&& new.num == old.num
        },
{
}

/// Padding moves the left side of a paragraph in by the left padding and the right
/// side by the right padding; its content and its other formatting stay.
pub proof fn padding_is_indentation(block: FlowLook, left: i32, right: i32)
    ensures
        !(block is Para) ==> padded(block, left, right) == block,
        block is Para ==> {
            let old = block->Para_props;
            let new = padded(block, left, right)->Para_props;
            &&& padded(block, left, right) is Para
            &&& padded(block, left, right)->Para_content == block->Para_content
            &&& fits(left_of(old.ind) + left) ==> left_of(new.ind) == left_of(old.ind) + left
            &&& fits(right_of(old.ind) + right) ==> right_of(new.ind) == right_of(old.ind) + right
            &&& new.style == old.style
            &&& new.jc == old.jc
            &&& new.spacing == old.spacing
            &&& new.num == old.num
            &&& old.ind is Some ==> new.ind.unwrap().first_line == old.ind.unwrap().first_line
                && new.ind.unwrap().hanging == old.ind.unwrap().hanging
        },
{
}

/// A title is in the title style, stays with what follows, and has its alignment
/// and the spacing that it sets.
pub proof fn titles_look_like_titles(
    jc: Option<Jc>,
    above: Option<i64>,
    below: Option<i64>,
    origin: ReviewOrigin,
)
    ensures
        ({
            let p = title_look(jc, above, below, origin);
            &&& p.style == Some("Title"@)
            &&& p.keep_next
            &&& p.jc == jc
            &&& p.review_origin == Some(origin)
            &&& above is Some ==> space_above(p.spacing) == twips(above.unwrap() as int)
            &&& above is None ==> space_above(p.spacing) == 0
            &&& below is Some ==> space_below(p.spacing) == twips(below.unwrap() as int)
            &&& below is None ==> space_below(p.spacing) == 0
            &&& above is None && below is None ==> p.spacing is None
            &&& p.num is None
            &&& p.ind is None
        }),
{
}

/// A labelled element has its bookmark here, unless it is a heading or a figure.
pub proof fn labelled_blocks_are_marked(c: Content)
    ensures
        marks_here(c) ==> c.labelled && c.location is Some,
        c.labelled && c.location is Some && (c.kind is Table || c.kind is Equation
            || c.kind is Par || c.kind is List || c.kind is Enum || c.kind is Block
            || c.kind is Quote) ==> marks_here(c),
        c.kind is Heading || c.kind is Figure ==> !marks_here(c),
{
}

proof fn lemma_first_para(blocks: Seq<FlowLook>, i: int)
    requires
        0 <= i <= blocks.len(),
    ensures
        i <= first_para(blocks, i) <= blocks.len(),
        forall|j: int| i <= j < first_para(blocks, i) ==> !((#[trigger] blocks[j]) is Para),
        first_para(blocks, i) < blocks.len() ==> blocks[first_para(blocks, i)] is Para,
    decreases blocks.len() - i,
{
    if i < blocks.len() && !(blocks[i] is Para) {
        lemma_first_para(blocks, i + 1);
    }
}

proof fn lemma_last_para(blocks: Seq<FlowLook>, n: int)
    requires
        0 <= n <= blocks.len(),
    ensures
        -1 <= last_para(blocks, n) < n,
        forall|j: int| last_para(blocks, n) < j < n ==> !((#[trigger] blocks[j]) is Para),
        last_para(blocks, n) >= 0 ==> blocks[last_para(blocks, n)] is Para,
    decreases n,
{
    if n > 0 && !(blocks[n - 1] is Para) {
        lemma_last_para(blocks, n - 1);
    }
}

/// A bookmark around blocks starts at the front of the first paragraph from `from`
/// on and ends at the end of the last paragraph; paragraphs between and other blocks
/// stay.
pub proof fn bookmarks_bracket_paragraphs(
    before: Seq<Block>,
    after: Seq<Block>,
    from: int,
    id: u32,
    name: Seq<char>,
    a: int,
    b: int,
)
    requires
        bracketed(before, after, from, id, name),
        0 <= from <= a <= b < before.len(),
        before[a] is Para,
        before[b] is Para,
        forall|j: int| from <= j < a ==> !((#[trigger] before[j]) is Para),
        forall|j: int| b < j < before.len() ==> !((#[trigger] before[j]) is Para),
    ensures
        after.len() == before.len(),
        after[a] is Para,
        after[b] is Para,
        after[a]->Para_0.content@.len() > 0,
        after[a]->Para_0.content@[0] is BookmarkStart,
        after[a]->Para_0.content@[0]->BookmarkStart_id == id,
        after[a]->Para_0.content@[0]->name@ == name,
        after[b]->Para_0.content@.last() == (ParaChild::BookmarkEnd { id }),
        a < b ==> after[a]->Para_0.content@.skip(1) =~= before[a]->Para_0.content@,
        a < b ==> after[b]->Para_0.content@.drop_last() =~= before[b]->Para_0.content@,
        a == b ==> after[a]->Para_0.content@.subrange(
            1,
            after[a]->Para_0.content@.len() - 1,
        ) =~= before[a]->Para_0.content@,
{
    let looks = flow_looks(before);
    lemma_first_para(looks, from);
    lemma_last_para(looks, looks.len() as int);
    let first = first_para(looks, from);
    let last = last_para(looks, looks.len() as int);
    assert forall|j: int| 0 <= j < before.len() implies (#[trigger] looks[j]) is Para
        == before[j] is Para by {}
    if first < a {
        assert(!(before[first] is Para));
        assert(looks[first] is Para);
    }
    if a < first {
        assert(!(looks[a] is Para));
    }
    if last > b {
        assert(!(before[last] is Para));
        assert(looks[last] is Para);
    }
    if last < b {
        assert(!(looks[b] is Para));
    }
    assert(first == a && last == b);
    assert(flow_look(after[a]) is Para && flow_look(after[b]) is Para);
    if a < b {
        let c = before[a]->Para_0.content@;
        let d = after[a]->Para_0.content@;
        assert(d.skip(1) =~= d.subrange(1, (1 + c.len()) as int));
        let e = before[b]->Para_0.content@;
        let f = after[b]->Para_0.content@;
        assert(f.drop_last() =~= f.subrange(0, e.len() as int));
    }
}

/// What a layout callback returns is one canvas where it is a container with a
/// frame around placed content, blocks otherwise, and its whole region where it
/// returns nothing.
pub proof fn layout_results_go_their_way(c: Content)
    ensures
        layout_route(None) == LayoutRoute::WholeRegion,
        (c.kind is Box || c.kind is Rect || c.kind is Square) && holds_class(c, Class::Place)
            <==> layout_route(Some(c)) == LayoutRoute::Canvas,
        layout_route(Some(c)) != LayoutRoute::WholeRegion,
{
}

/// An attribution is in the style of quotes, at the right end, and as far in as the
/// quote on both sides.
pub proof fn attributions_look_like_quotes(em: i32)
    ensures
        attribution_look(em).style == Some("Quote"@),
        attribution_look(em).jc == Some(Jc::End),
        left_of(attribution_look(em).ind) == em,
        right_of(attribution_look(em).ind) == em,
        attribution_look(em).num is None,
        attribution_look(em).spacing is None,
{
}

/// A shape with strokes of its own keeps them. One without has none where it is
/// filled, and otherwise a black line of the default width on every side.
pub proof fn shapes_without_strokes_have_the_default(
    filled: bool,
    default_sz: u32,
    own: SideStrokes,
)
    ensures
        stroke_sides(ShapeStrokes::Custom(own), filled, default_sz) == own,
        borders_of(stroke_sides(ShapeStrokes::Auto, true, default_sz)) is None,
        ({
            let sides = stroke_sides(ShapeStrokes::Auto, false, default_sz);
            &&& sides.top is Some && sides.left is Some && sides.bottom is Some
                && sides.right is Some
            &&& sides.top.unwrap().sz == default_sz && sides.left.unwrap().sz == default_sz
            &&& sides.bottom.unwrap().sz == default_sz && sides.right.unwrap().sz == default_sz
            &&& side_look(sides.top.unwrap()).style == "single"@
            &&& side_look(sides.left.unwrap()).color@ =~= seq![0u8, 0u8, 0u8]
        }),
{
}

// -- Panels ------------------------------------------------------------------

/// A block becomes a panel exactly where it has a solid fill and a height that is
/// positive and at most three fifths of what is available.
pub proof fn low_filled_blocks_become_panels(ctx: DocxCtx, facts: BlockFacts)
    ensures
        becomes_panel(ctx, facts) ==> facts.fill is Solid && facts.height is Some,
        facts.height is None ==> !becomes_panel(ctx, facts),
        facts.fill is Solid && facts.height is Some ==> {
            let base = if ctx.shape_height_base is Some {
                ctx.shape_height_base.unwrap()
            } else {
                ctx.available_height
            };
            let height = facts.height.unwrap().at(base);
            becomes_panel(ctx, facts) <==> 0 < height && 5 * height <= 3 * ctx.available_height
        },
{
}

/// A panel is one cell in its color that is at least as high as asked for and holds
/// the content; it ends in a paragraph and never splits.
pub proof fn panels_hold_their_content(
    block: Block,
    width: i32,
    height: i32,
    color: [u8; 3],
    inner: Seq<Block>,
)
    requires
        is_panel(block, width, height, color, inner),
    ensures
        block is Table,
        block->Table_0.grid@ == seq![width],
        block->Table_0.rows@.len() == 1,
        block->Table_0.rows@[0].cant_split,
        !block->Table_0.rows@[0].header,
        block->Table_0.rows@[0].height is Some,
        block->Table_0.rows@[0].height.unwrap().val == height,
        !block->Table_0.rows@[0].height.unwrap().exact,
        block->Table_0.rows@[0].cells@.len() == 1,
        block->Table_0.rows@[0].cells@[0].shd_fill == Some(color),
        block->Table_0.rows@[0].cells@[0].v_merge is None,
        ({
            let blocks = block->Table_0.rows@[0].cells@[0].blocks@;
            &&& blocks.len() > 0
            &&& blocks.last() is Para
            &&& inner.is_prefix_of(blocks)
            &&& blocks.len() <= inner.len() + 1
        }),
{
    let blocks = block->Table_0.rows@[0].cells@[0].blocks@;
    if inner.len() > 0 && inner.last() is Para {
        assert(inner.is_prefix_of(blocks));
    } else {
        assert(blocks.drop_last() == inner);
        assert(inner =~= blocks.subrange(0, inner.len() as int));
    }
}

/// A panel is as wide as it says, or as what is available, and at least one twip.
pub proof fn panels_have_a_width(ctx: DocxCtx, facts: BlockFacts)
    ensures
        panel_width(ctx, facts) >= 1,
        facts.width is None && twips(ctx.available_width as int) >= 1 ==> panel_width(ctx, facts)
            == twips(ctx.available_width as int),
        facts.width is Some && twips(
            facts.width.unwrap().at(ctx.available_width) as int,
        ) >= 1 ==> panel_width(ctx, facts) == twips(
            facts.width.unwrap().at(ctx.available_width) as int,
        ),
{
}

} // verus!
