//! The conversion of one block element.

use vstd::prelude::*;

use crate::content::{Class, Content, Kind, body, holds_class};
use crate::convert::boxes::{
    BlockFacts, BlockFill, BoxLook, block_borders, block_box_look, block_look, borders_of,
    boxed_block, bracket_bookmark, bracketed, first_para, side_border, side_look,
    is_bracketed, stamp_box_decorations, stroke_sides_nonuniform, SideStroke, SideStrokes,
};
use crate::convert::canvas::{is_canvas_candidate, owns_placements};
use crate::convert::predicates::{
    body_extractable, body_has_footnote, body_is_flowing, body_is_frameless_flow_container,
    body_is_wrap_figure, body_textbox_safe, contains_place, extractable, finite_layout_canvas_candidate,
    is_empty_plain_box, is_flow_container, is_framed, is_framed_container, is_strut, owns_layout,
    placed_bodies_shape_only, placed_shapes_only, wraps_figure,
};
use crate::ctx::bookmarks::{bookmarked, lemma_same_bookmarks};
use crate::ctx::state::DocxCtx;
use crate::dom::{
    Block, Indent, Jc, Location, Para, ParaBorders, ParaChild, ParaProps, ReviewOrigin, Run, Spacing, Tag,
};
use crate::document::tags::{blocks_tags, collect_tags};
use crate::length::{abs_to_twip, add_sat, sat32, twips};
use crate::props::{BordersLook, FlowLook, ParaLook, flow_look, flow_looks, plain_para};

verus! {

/// How a block element is converted.
#[derive(Debug, Copy, Clone, PartialEq, Eq, Structural)]
pub enum BlockRoute {
    Tag,
    /// The content inside a raw scope.
    Raw,
    /// The element's body in its place.
    Unwrap,
    Pagebreak,
    Par,
    /// Nothing shows.
    Nothing,
    Heading,
    Title,
    List,
    Enum,
    Terms,
    Table,
    Grid,
    Stack,
    Columns,
    Layout,
    Outline,
    Equation,
    Figure,
    Caption,
    Quote,
    /// A horizontal rule.
    Rule,
    Pad,
    Colbreak,
    Place,
    /// A canvas of placed content, if its frame shows that it belongs together.
    Canvas,
    /// A bounded box that computes its content, as one drawing or image.
    LayoutCanvas,
    /// A composition of placed shapes, if one drawing can hold it.
    PlacedShapes,
    /// An empty box that only takes space.
    Strut,
    /// A block around content.
    Block,
    /// A block that computes its body, as an image.
    BlockImage,
    /// A container with a frame, as paragraphs if it may be.
    Framed,
    /// A container with a frame, as an image.
    FramedImage,
    /// A container with a frame, as a text box.
    TextBox,
    /// Inline content in a paragraph of its own.
    Inline,
}

/// The attempts that did not succeed.
#[derive(Debug, Copy, Clone, PartialEq, Eq, Structural)]
pub struct Declined {
    pub canvas: bool,
    pub shapes: bool,
    pub framed: bool,
}

/// Whether an element is a block or a container with a frame.
pub open spec fn is_container(c: Content) -> bool {
    c.kind is Block || is_framed(c)
}

/// How an element that may be a container is converted.
pub open spec fn container_route(c: Content, declined: Declined, suppress: bool) -> BlockRoute {
    if is_container(c) && !declined.canvas && (owns_placements(c) || owns_layout(c)) {
        BlockRoute::Canvas
    } else if owns_layout(c) {
        BlockRoute::LayoutCanvas
    } else if is_container(c) && !declined.shapes && holds_class(c, Class::Place)
        && placed_shapes_only(c) {
        BlockRoute::PlacedShapes
    } else if is_strut(c) {
        BlockRoute::Strut
    } else if c.kind is Block {
        if c.kind->content {
            BlockRoute::Block
        } else {
            BlockRoute::BlockImage
        }
    } else if is_framed(c) {
        if !declined.framed {
            BlockRoute::Framed
        } else if suppress {
            BlockRoute::FramedImage
        } else {
            BlockRoute::TextBox
        }
    } else {
        BlockRoute::Inline
    }
}

/// How a block element is converted.
pub open spec fn block_route(c: Content, declined: Declined, suppress: bool) -> BlockRoute {
    match c.kind {
        Kind::Tag => BlockRoute::Tag,
        Kind::Raw { .. } => BlockRoute::Raw,
        Kind::PdfMarker | Kind::Artifact | Kind::GridCell | Kind::TableCell => BlockRoute::Unwrap,
        Kind::Pagebreak => BlockRoute::Pagebreak,
        Kind::Par => BlockRoute::Par,
        Kind::Parbreak | Kind::Flush => BlockRoute::Nothing,
        Kind::Heading => BlockRoute::Heading,
        Kind::Title => BlockRoute::Title,
        Kind::List => BlockRoute::List,
        Kind::Enum => BlockRoute::Enum,
        Kind::Terms => BlockRoute::Terms,
        Kind::Table => BlockRoute::Table,
        Kind::Grid => BlockRoute::Grid,
        Kind::Stack => BlockRoute::Stack,
        Kind::Columns => BlockRoute::Columns,
        Kind::Layout => BlockRoute::Layout,
        Kind::Outline => BlockRoute::Outline,
        Kind::Equation { .. } => BlockRoute::Equation,
        Kind::Figure => BlockRoute::Figure,
        Kind::FigureCaption => BlockRoute::Caption,
        Kind::Quote => BlockRoute::Quote,
        Kind::Line { rule: true } => BlockRoute::Rule,
        Kind::Pad => if body(c) is Some && extractable(body(c)->0) {
            BlockRoute::Pad
        } else {
            container_route(c, declined, suppress)
        },
        Kind::Colbreak => BlockRoute::Colbreak,
        Kind::Place { .. } => BlockRoute::Place,
        _ => container_route(c, declined, suppress),
    }
}

fn route_container(c: &Content, declined: Declined, suppress: bool) -> (r: BlockRoute)
    ensures
        r == container_route(*c, declined, suppress),
{
    let block: bool = matches!(c.kind, Kind::Block { .. });
    let content: bool = matches!(c.kind, Kind::Block { content: true, .. });
    let framed: bool = is_framed_container(c);
    if (block || framed) && !declined.canvas && is_canvas_candidate(c) {
        BlockRoute::Canvas
    } else if finite_layout_canvas_candidate(c) {
        BlockRoute::LayoutCanvas
    } else if (block || framed) && !declined.shapes && contains_place(c)
        && placed_bodies_shape_only(c) {
        BlockRoute::PlacedShapes
    } else if is_empty_plain_box(c) {
        BlockRoute::Strut
    } else if content {
        BlockRoute::Block
    } else if block {
        BlockRoute::BlockImage
    } else if framed {
        if !declined.framed {
            BlockRoute::Framed
        } else if suppress {
            BlockRoute::FramedImage
        } else {
            BlockRoute::TextBox
        }
    } else {
        BlockRoute::Inline
    }
}

/// Decides how a block element is converted, given the attempts that did not
/// succeed. `suppress` says that the content will be centered.
pub fn route_block(c: &Content, declined: Declined, suppress: bool) -> (r: BlockRoute)
    ensures
        r == block_route(*c, declined, suppress),
{
    match c.kind {
        Kind::Tag => BlockRoute::Tag,
        Kind::Raw { .. } => BlockRoute::Raw,
        Kind::PdfMarker | Kind::Artifact | Kind::GridCell | Kind::TableCell => BlockRoute::Unwrap,
        Kind::Pagebreak => BlockRoute::Pagebreak,
        Kind::Par => BlockRoute::Par,
        Kind::Parbreak | Kind::Flush => BlockRoute::Nothing,
        Kind::Heading => BlockRoute::Heading,
        Kind::Title => BlockRoute::Title,
        Kind::List => BlockRoute::List,
        Kind::Enum => BlockRoute::Enum,
        Kind::Terms => BlockRoute::Terms,
        Kind::Table => BlockRoute::Table,
        Kind::Grid => BlockRoute::Grid,
        Kind::Stack => BlockRoute::Stack,
        Kind::Columns => BlockRoute::Columns,
        Kind::Layout => BlockRoute::Layout,
        Kind::Outline => BlockRoute::Outline,
        Kind::Equation { .. } => BlockRoute::Equation,
        Kind::Figure => BlockRoute::Figure,
        Kind::FigureCaption => BlockRoute::Caption,
        Kind::Quote => BlockRoute::Quote,
        Kind::Line { rule } => if rule {
            BlockRoute::Rule
        } else {
            route_container(c, declined, suppress)
        },
        Kind::Pad => if c.children.len() > 0 && body_extractable(&c.children[0]) {
            BlockRoute::Pad
        } else {
            route_container(c, declined, suppress)
        },
        Kind::Colbreak => BlockRoute::Colbreak,
        Kind::Place { .. } => BlockRoute::Place,
        _ => route_container(c, declined, suppress),
    }
}

/// How a container with a frame becomes paragraphs.
#[derive(Debug, Copy, Clone, PartialEq, Eq, Structural)]
pub enum FramedRoute {
    /// Not at all.
    Declined,
    /// A frameless label: its paragraphs with the insets.
    Label,
    /// A frameless container: its blocks as they are.
    Flow,
    /// Paragraphs with the frame.
    Boxed,
}

/// Whether a fill has no flat color.
pub open spec fn is_patterned(fill: BlockFill) -> bool {
    fill is Gradient || fill is Tiling
}

/// Whether a body fits a text box on one line.
pub open spec fn is_short(b: Content) -> bool {
    !holds_class(b, Class::Flowing) && !holds_class(b, Class::Footnote) && !holds_class(
        b,
        Class::TextBoxUnsafe,
    )
}

/// Whether some sides are stroked and others are not.
pub open spec fn is_uneven(s: SideStrokes) -> bool {
    (s.top is Some || s.right is Some || s.bottom is Some || s.left is Some) && !(s.top is Some
        && s.right is Some && s.bottom is Some && s.left is Some)
}

/// How a container with a frame becomes paragraphs.
pub open spec fn framed_route(c: Content, facts: BlockFacts) -> FramedRoute {
    match body(c) {
        None => FramedRoute::Declined,
        Some(b) => if !is_framed(c) || is_patterned(facts.fill) || !extractable(b) {
            FramedRoute::Declined
        } else if !(facts.fill is Solid) && borders_of(facts.strokes) is None {
            if is_short(b) {
                FramedRoute::Label
            } else if wraps_figure(b) || is_flow_container(b) {
                FramedRoute::Flow
            } else {
                FramedRoute::Declined
            }
        } else if is_short(b) && !is_uneven(facts.strokes) {
            FramedRoute::Declined
        } else {
            FramedRoute::Boxed
        },
    }
}

fn short(b: &Content) -> (r: bool)
    ensures
        r == is_short(*b),
{
    !body_is_flowing(b) && !body_has_footnote(b) && body_textbox_safe(b)
}

/// Decides how a container with a frame becomes paragraphs. What fits a text box
/// on one line is left to the text box, unless only a paragraph border can state
/// its frame.
pub fn route_framed(c: &Content, facts: &BlockFacts) -> (r: FramedRoute)
    ensures
        r == framed_route(*c, *facts),
{
    if c.children.len() == 0 || !is_framed_container(c) {
        return FramedRoute::Declined;
    }
    let b: &Content = &c.children[0];
    let patterned: bool = match facts.fill {
        BlockFill::Gradient(_) | BlockFill::Tiling => true,
        _ => false,
    };
    if patterned || !body_extractable(b) {
        return FramedRoute::Declined;
    }
    let solid: bool = match facts.fill {
        BlockFill::Solid(_) => true,
        _ => false,
    };
    if !solid && block_borders(&facts.strokes).is_none() {
        if short(b) {
            FramedRoute::Label
        } else if body_is_wrap_figure(b) || body_is_frameless_flow_container(b) {
            FramedRoute::Flow
        } else {
            FramedRoute::Declined
        }
    } else if short(b) && !stroke_sides_nonuniform(&facts.strokes) {
        FramedRoute::Declined
    } else {
        FramedRoute::Boxed
    }
}

/// Whether a look carries insets alone.
pub open spec fn insets_only(facts: BlockFacts, look: BoxLook) -> bool {
    exists|full: BoxLook|
        #[trigger] block_look(facts, full) && look == (BoxLook {
            shd_fill: None,
            pbdr: None,
            above: None,
            below: None,
            ..full
        })
}

/// Whether a look is the frame of a container, without space around it.
pub open spec fn frame_only(facts: BlockFacts, look: BoxLook) -> bool {
    exists|full: BoxLook|
        #[trigger] block_look(facts, full) && look == (BoxLook {
            above: None,
            below: None,
            ..full
        })
}

/// Adds the blocks of a container with a frame, lowered from its body. The tags
/// inside them are collected besides.
pub fn finish_framed(
    ctx: &mut DocxCtx,
    route: FramedRoute,
    facts: &BlockFacts,
    inner: Vec<Block>,
    out: &mut Vec<Block>,
)
    requires
        route != FramedRoute::Declined,
    ensures
        final(ctx).deferred_tags@ == old(ctx).deferred_tags@ + blocks_tags(inner@),
        *final(ctx) == (DocxCtx { deferred_tags: final(ctx).deferred_tags, ..*old(ctx) }),
        final(out)@.len() == old(out)@.len() + inner@.len(),
        final(out)@.take(old(out)@.len() as int) == old(out)@,
        ({
            let added = final(out)@.skip(old(out)@.len() as int);
            match route {
                FramedRoute::Flow => added == inner@,
                _ => exists|look: BoxLook|
                    {
                        &&& if route == FramedRoute::Label {
                            insets_only(*facts, look)
                        } else {
                            frame_only(*facts, look)
                        }
                        &&& forall|i: int|
                            0 <= i < added.len() ==> flow_look(#[trigger] added[i])
                                == #[trigger] boxed_block(flow_looks(inner@), i, look)
                    },
            }
        }),
{
    let ghost before = out@;
    collect_tags(&inner, &mut ctx.deferred_tags);
    let mut blocks: Vec<Block> = inner;
    let full: BoxLook = block_box_look(facts);
    let ghost mut stamp: BoxLook = full;
    match route {
        FramedRoute::Label => {
            let look: BoxLook = BoxLook {
                shd_fill: None,
                pbdr: None,
                insets: full.insets,
                above: None,
                below: None,
            };
            stamp_box_decorations(&mut blocks, &look);
            proof {
                stamp = look;
                assert(block_look(*facts, full));
                assert(insets_only(*facts, look));
            }
        },
        FramedRoute::Boxed => {
            let look: BoxLook = BoxLook {
                shd_fill: full.shd_fill,
                pbdr: full.pbdr,
                insets: full.insets,
                above: None,
                below: None,
            };
            stamp_box_decorations(&mut blocks, &look);
            proof {
                stamp = look;
                assert(block_look(*facts, full));
                assert(frame_only(*facts, look));
            }
        },
        _ => {},
    }
    let ghost added = blocks@;
    out.append(&mut blocks);
    assert(out@.take(before.len() as int) =~= before);
    assert(out@.skip(before.len() as int) =~= added);
}

/// A paragraph's children made of runs.
pub open spec fn run_children(runs: Seq<Run>) -> Seq<ParaChild> {
    runs.map_values(|r: Run| ParaChild::Run(r))
}

/// Puts runs among a paragraph's children.
pub fn push_runs(runs: Vec<Run>, out: &mut Vec<ParaChild>)
    ensures
        final(out)@ == old(out)@ + run_children(runs@),
{
    let ghost before = out@;
    let ghost all = runs@;
    for run in it: runs
        invariant
            it.seq() == all,
            out@ == before + run_children(all.take(it.index() as int)),
    {
        let ghost i = it.index() as int;
        out.push(ParaChild::Run(run));
        assert(run_children(all.take(i + 1)) =~= run_children(all.take(i)).push(
            ParaChild::Run(run),
        ));
        assert(out@ =~= before + run_children(all.take(i + 1)));
    }
    assert(all.take(all.len() as int) =~= all);
}

/// A paragraph of runs without formatting.
pub fn runs_block(runs: Vec<Run>) -> (r: Block)
    ensures
        flow_look(r) == (FlowLook::Para { props: plain_para(), content: run_children(runs@) }),
{
    let mut content: Vec<ParaChild> = Vec::new();
    push_runs(runs, &mut content);
    assert(content@ =~= run_children(runs@));
    let props: ParaProps = ParaProps::default();
    assert(props@ == plain_para());
    Block::Para(Para { props, content })
}

/// A paragraph around runs; `None` without runs.
pub fn fallback_para(runs: Vec<Run>) -> (r: Option<Block>)
    ensures
        match r {
            None => runs@.len() == 0,
            Some(block) => runs@.len() > 0 && flow_look(block) == (FlowLook::Para {
                props: plain_para(),
                content: run_children(runs@),
            }),
        },
{
    if runs.len() == 0 {
        None
    } else {
        Some(runs_block(runs))
    }
}

/// What becomes of the content that a layout callback returned.
#[derive(Debug, Copy, Clone, PartialEq, Eq, Structural)]
pub enum LayoutRoute {
    /// A framed canvas of placed content stays whole: one drawing, else its image.
    Canvas,
    /// It is lowered like any other content.
    Blocks,
    /// The callback returned nothing: the element is laid out as a whole.
    WholeRegion,
}

/// What becomes of the content that a layout callback returned.
pub open spec fn layout_route(result: Option<Content>) -> LayoutRoute {
    match result {
        Some(c) => if is_framed(c) && holds_class(c, Class::Place) {
            LayoutRoute::Canvas
        } else {
            LayoutRoute::Blocks
        },
        None => LayoutRoute::WholeRegion,
    }
}

/// Chooses what becomes of the content that a layout callback returned. A callback
/// that returns one framed canvas of placed content owns its coordinates, which
/// lowering piece by piece would lose.
pub fn route_layout(result: Option<&Content>) -> (r: LayoutRoute)
    ensures
        r == (match result {
            Some(c) => if is_framed(*c) && holds_class(*c, Class::Place) {
                LayoutRoute::Canvas
            } else {
                LayoutRoute::Blocks
            },
            None => LayoutRoute::WholeRegion,
        }),
        r == layout_route(
            match result {
                Some(c) => Some(*c),
                None => None,
            },
        ),
{
    match result {
        Some(c) => {
            if is_framed_container(c) && contains_place(c) {
                LayoutRoute::Canvas
            } else {
                LayoutRoute::Blocks
            }
        }
        None => LayoutRoute::WholeRegion,
    }
}

/// The paragraph of one drawing, else of an image and its recovered text; `None`
/// is content that produced nothing.
pub fn drawing_or_image(drawing: Option<Run>, image: Vec<Run>) -> (r: Option<Block>)
    ensures
        match r {
            None => drawing is None && image@.len() == 0,
            Some(block) => flow_look(block) == (FlowLook::Para {
                props: plain_para(),
                content: match drawing {
                    Some(run) => seq![ParaChild::Run(run)],
                    None => run_children(image@),
                },
            }) && (drawing is Some || image@.len() > 0),
        },
{
    match drawing {
        Some(run) => {
            let mut runs: Vec<Run> = Vec::new();
            runs.push(run);
            let r: Block = runs_block(runs);
            assert(run_children(runs@) =~= seq![ParaChild::Run(run)]);
            Some(r)
        },
        None => fallback_para(image),
    }
}

/// The block of a page break. A weak break and a page-setup boundary break only
/// where content precedes them, unless they ask for an odd or even page.
pub fn pagebreak_block(weak: bool, boundary: bool, parity: bool) -> (r: Block)
    ensures
        if (weak || boundary) && !parity {
            r is WeakPageBreak
        } else {
            flow_look(r) == (FlowLook::Para {
                props: plain_para(),
                content: seq![ParaChild::Run(Run::PageBreak)],
            })
        },
{
    if (weak || boundary) && !parity {
        Block::WeakPageBreak
    } else {
        let mut runs: Vec<Run> = Vec::new();
        runs.push(Run::PageBreak);
        let r: Block = runs_block(runs);
        assert(run_children(runs@) =~= seq![ParaChild::Run(Run::PageBreak)]);
        r
    }
}

/// The block of a column break.
pub fn colbreak_block() -> (r: Block)
    ensures
        flow_look(r) == (FlowLook::Para {
            props: plain_para(),
            content: seq![ParaChild::Run(Run::ColumnBreak)],
        }),
{
    let mut runs: Vec<Run> = Vec::new();
    runs.push(Run::ColumnBreak);
    let r: Block = runs_block(runs);
    assert(run_children(runs@) =~= seq![ParaChild::Run(Run::ColumnBreak)]);
    r
}

/// A horizontal rule: an empty paragraph with a bottom border.
pub fn rule_block(stroke: &SideStroke) -> (r: Block)
    ensures
        flow_look(r) == (FlowLook::Para {
            props: ParaLook {
                pbdr: Some(
                    BordersLook {
                        top: None,
                        left: None,
                        bottom: Some(side_look(*stroke)),
                        right: None,
                    },
                ),
                ..plain_para()
            },
            content: seq![],
        }),
{
    let mut borders: ParaBorders = ParaBorders::default();
    borders.bottom = Some(side_border(stroke));
    let mut props: ParaProps = ParaProps::default();
    props.pbdr = Some(borders);
    let content: Vec<ParaChild> = Vec::new();
    assert(content@ =~= seq![]);
    assert(props@.tabs =~= plain_para().tabs);
    Block::Para(Para { props, content })
}

/// Indentation with something added on both sides.
pub open spec fn indented(base: Option<Indent>, left: i32, right: i32) -> Indent {
    let ind = match base {
        Some(i) => i,
        None => Indent { left: None, right: None, first_line: None, hanging: None },
    };
    Indent {
        left: Some(
            sat32(
                (match ind.left {
                    Some(x) => x,
                    None => 0,
                }) + left,
            ),
        ),
        right: Some(
            sat32(
                (match ind.right {
                    Some(x) => x,
                    None => 0,
                }) + right,
            ),
        ),
        ..ind
    }
}

fn indent(base: Option<Indent>, left: i32, right: i32) -> (r: Indent)
    ensures
        r == indented(base, left, right),
{
    let mut ind: Indent = match base {
        Some(i) => i,
        None => Indent::default(),
    };
    ind.left = Some(
        add_sat(
            match ind.left {
                Some(x) => x,
                None => 0,
            },
            left,
        ),
    );
    ind.right = Some(
        add_sat(
            match ind.right {
                Some(x) => x,
                None => 0,
            },
            right,
        ),
    );
    ind
}

/// A block of a quote: a paragraph gets the quote style unless it has one, and
/// the indentation of a block quote.
pub open spec fn quoted(block: FlowLook, em: Option<i32>) -> FlowLook {
    match block {
        FlowLook::Para { props, content } => FlowLook::Para {
            props: ParaLook {
                style: match props.style {
                    Some(style) => Some(style),
                    None => Some("Quote"@),
                },
                ind: match em {
                    Some(e) => Some(indented(props.ind, e, e)),
                    None => props.ind,
                },
                ..props
            },
            content,
        },
        FlowLook::Other(_) => block,
    }
}

/// Styles the blocks of a quote. `em` is the indentation of a block quote, in
/// twips.
pub fn quote_blocks(blocks: &mut Vec<Block>, em: Option<i32>)
    ensures
        final(blocks)@.len() == old(blocks)@.len(),
        forall|i: int|
            0 <= i < final(blocks)@.len() ==> flow_look(#[trigger] final(blocks)@[i]) == quoted(
                flow_look(old(blocks)@[i]),
                em,
            ),
{
    let n: usize = blocks.len();
    let mut i: usize = 0;
    while i < n
        invariant
            i <= n,
            n == blocks@.len(),
            n == old(blocks)@.len(),
            forall|k: int|
                0 <= k < i ==> flow_look(#[trigger] blocks@[k]) == quoted(
                    flow_look(old(blocks)@[k]),
                    em,
                ),
            forall|k: int| i <= k < n ==> #[trigger] blocks@[k] == old(blocks)@[k],
        decreases n - i,
    {
        if let Block::Para(para) = &mut blocks[i] {
            if para.props.style.is_none() {
                para.props.style = Some("Quote".to_owned());
            }
            if let Some(e) = em {
                para.props.ind = Some(indent(para.props.ind, e, e));
            }
        }
        i = i + 1;
    }
}

/// The formatting of the attribution below a block quote.
pub open spec fn attribution_look(em: i32) -> ParaLook {
    ParaLook {
        style: Some("Quote"@),
        ind: Some(
            Indent { left: Some(em), right: Some(em), first_line: None, hanging: None },
        ),
        jc: Some(Jc::End),
        ..plain_para()
    }
}

/// The attribution below a block quote, at its right end; `None` without runs.
pub fn attribution_block(runs: Vec<Run>, em: i32) -> (r: Option<Block>)
    ensures
        match r {
            None => runs@.len() == 0,
            Some(block) => runs@.len() > 0 && flow_look(block) == (FlowLook::Para {
                props: ParaLook {
                    style: Some("Quote"@),
                    ind: Some(
                        Indent {
                            left: Some(em),
                            right: Some(em),
                            first_line: None,
                            hanging: None,
                        },
                    ),
                    jc: Some(Jc::End),
                    ..plain_para()
                },
                content: run_children(runs@),
            }),
        },
        r is Some <==> runs@.len() > 0,
        r is Some ==> flow_look(r.unwrap()) == (FlowLook::Para {
            props: attribution_look(em),
            content: run_children(runs@),
        }),
{
    if runs.len() == 0 {
        return None;
    }
    let mut props: ParaProps = ParaProps::default();
    props.style = Some("Quote".to_owned());
    props.ind = Some(
        Indent { left: Some(em), right: Some(em), first_line: None, hanging: None },
    );
    props.jc = Some(Jc::End);
    let mut content: Vec<ParaChild> = Vec::new();
    push_runs(runs, &mut content);
    assert(content@ =~= run_children(runs@));
    assert(props@.tabs =~= plain_para().tabs);
    Some(Block::Para(Para { props, content }))
}

/// A block of padded content: horizontal padding is indentation.
pub open spec fn padded(block: FlowLook, left: i32, right: i32) -> FlowLook {
    match block {
        FlowLook::Para { props, content } => {
            let all = indented(props.ind, left, right);
            let base = match props.ind {
                Some(i) => i,
                None => Indent { left: None, right: None, first_line: None, hanging: None },
            };
            FlowLook::Para {
                props: ParaLook {
                    ind: Some(
                        Indent {
                            left: if left != 0 {
                                all.left
                            } else {
                                base.left
                            },
                            right: if right != 0 {
                                all.right
                            } else {
                                base.right
                            },
                            ..base
                        },
                    ),
                    ..props
                },
                content,
            }
        },
        FlowLook::Other(_) => block,
    }
}

/// Indents the blocks of padded content.
pub fn pad_blocks(blocks: &mut Vec<Block>, left: i64, right: i64)
    ensures
        final(blocks)@.len() == old(blocks)@.len(),
        forall|i: int|
            0 <= i < final(blocks)@.len() ==> flow_look(#[trigger] final(blocks)@[i]) == padded(
                flow_look(old(blocks)@[i]),
                twips(left as int),
                twips(right as int),
            ),
{
    let left_dxa: i32 = abs_to_twip(left);
    let right_dxa: i32 = abs_to_twip(right);
    let n: usize = blocks.len();
    let mut i: usize = 0;
    while i < n
        invariant
            i <= n,
            n == blocks@.len(),
            n == old(blocks)@.len(),
            left_dxa == twips(left as int),
            right_dxa == twips(right as int),
            forall|k: int|
                0 <= k < i ==> flow_look(#[trigger] blocks@[k]) == padded(
                    flow_look(old(blocks)@[k]),
                    left_dxa,
                    right_dxa,
                ),
            forall|k: int| i <= k < n ==> #[trigger] blocks@[k] == old(blocks)@[k],
        decreases n - i,
    {
        if let Block::Para(para) = &mut blocks[i] {
            let all: Indent = indent(para.props.ind, left_dxa, right_dxa);
            let mut ind: Indent = match para.props.ind {
                Some(i) => i,
                None => Indent::default(),
            };
            if left_dxa != 0 {
                ind.left = all.left;
            }
            if right_dxa != 0 {
                ind.right = all.right;
            }
            para.props.ind = Some(ind);
        }
        i = i + 1;
    }
}

/// The formatting of a title.
pub open spec fn title_look(
    jc: Option<Jc>,
    above: Option<i64>,
    below: Option<i64>,
    origin: ReviewOrigin,
) -> ParaLook {
    ParaLook {
        style: Some("Title"@),
        keep_next: true,
        jc,
        review_origin: Some(origin),
        spacing: if above is Some || below is Some {
            Some(
                Spacing {
                    before: match above {
                        Some(x) => Some(twips(x as int)),
                        None => None,
                    },
                    after: match below {
                        Some(x) => Some(twips(x as int)),
                        None => None,
                    },
                    line: None,
                    line_rule_auto: false,
                    line_rule_at_least: false,
                },
            )
        } else {
            None
        },
        ..plain_para()
    }
}

/// The formatting of a title.
pub fn title_props(
    jc: Option<Jc>,
    above: Option<i64>,
    below: Option<i64>,
    origin: ReviewOrigin,
) -> (r: ParaProps)
    ensures
        r@ == title_look(jc, above, below, origin),
{
    let mut props: ParaProps = ParaProps::default();
    props.style = Some("Title".to_owned());
    props.keep_next = true;
    props.jc = jc;
    props.review_origin = Some(origin);
    if above.is_some() || below.is_some() {
        let mut spacing: Spacing = Spacing::default();
        spacing.before = match above {
            Some(x) => Some(abs_to_twip(x)),
            None => None,
        };
        spacing.after = match below {
            Some(x) => Some(abs_to_twip(x)),
            None => None,
        };
        props.spacing = Some(spacing);
    }
    assert(props@.tabs =~= plain_para().tabs);
    props
}

/// Tags as blocks.
pub open spec fn tag_blocks(tags: Seq<Tag>) -> Seq<Block> {
    tags.map_values(|t: Tag| Block::Tag(t))
}

/// Whether a labelled element gets its bookmark here: headings and figures bring
/// their own.
pub open spec fn marks_here(c: Content) -> bool {
    c.labelled && c.location is Some && !(c.kind is Heading) && !(c.kind is Figure)
}

fn splice_tags(out: &mut Vec<Block>, at: usize, tags: &Vec<Tag>)
    requires
        at <= old(out)@.len(),
    ensures
        final(out)@ == old(out)@.take(at as int) + tag_blocks(tags@) + old(out)@.skip(at as int),
{
    let ghost before = out@;
    let mut tail: Vec<Block> = out.split_off(at);
    let mut i: usize = 0;
    while i < tags.len()
        invariant
            i <= tags@.len(),
            out@ == before.take(at as int) + tag_blocks(tags@.take(i as int)),
        decreases tags@.len() - i,
    {
        out.push(Block::Tag(tags[i]));
        assert(tag_blocks(tags@.take(i + 1)) =~= tag_blocks(tags@.take(i as int)).push(
            Block::Tag(tags@[i as int]),
        ));
        i = i + 1;
        assert(out@ =~= before.take(at as int) + tag_blocks(tags@.take(i as int)));
    }
    assert(tags@.take(i as int) =~= tags@);
    out.append(&mut tail);
    assert(out@ =~= before.take(at as int) + tag_blocks(tags@) + before.skip(at as int));
}

impl DocxCtx {
    /// Adds a title, which is a link target wherever it has a location.
    pub fn finish_title(
        &mut self,
        props: ParaProps,
        content: Vec<ParaChild>,
        location: Option<Location>,
        out: &mut Vec<Block>,
    )
        requires
            location matches Some(loc) ==> old(self).can_emit(loc),
            old(self).bookmarks_distinct(),
        ensures
            final(self).bookmarks_distinct(),
            final(out)@.len() == old(out)@.len() + 1,
            final(out)@.drop_last() == old(out)@,
            ({
                let plain = FlowLook::Para { props: props@, content: content@ };
                let shown = flow_look(final(out)@.last());
                match location {
                    None => shown == plain && *final(self) == *old(self),
                    Some(loc) => {
                        &&& final(self).emitted_bookmarks@ == old(
                            self,
                        ).emitted_bookmarks@.insert(loc.0)
                        &&& if old(self).emitted_bookmarks@.contains(loc.0) {
                            &&& shown == plain
                            &&& *final(self) == (DocxCtx {
                                emitted_bookmarks: final(self).emitted_bookmarks,
                                ..*old(self)
                            })
                        } else {
                            exists|id: u32, name: Seq<char>|
                                {
                                    &&& #[trigger] is_bracketed(plain, shown, true, true, id, name)
                                    &&& bookmarked(
                                        (DocxCtx {
                                            emitted_bookmarks: final(self).emitted_bookmarks,
                                            ..*old(self)
                                        }),
                                        *final(self),
                                        loc,
                                        id,
                                        name,
                                    )
                                }
                        }
                    },
                }
            }),
    {
        let ghost plain = FlowLook::Para { props: props@, content: content@ };
        let mut content: Vec<ParaChild> = content;
        let ghost kids = content@;
        if let Some(loc) = location {
            if let Some((id, name)) = self.bookmark_for_emission(loc) {
                let ghost text = name@;
                content.insert(0, ParaChild::BookmarkStart { id, name });
                content.push(ParaChild::BookmarkEnd { id });
                assert(content@.subrange(1, 1 + kids.len() as int) =~= kids);
                let ghost shown = FlowLook::Para { props: props@, content: content@ };
                assert(is_bracketed(plain, shown, true, true, id, text));
            }
        }
        out.push(Block::Para(Para { props, content }));
        assert(out@.drop_last() =~= old(out)@);
    }

    /// Ends the conversion of a block element: the tags that its lowering put
    /// aside return to its place, and a labelled element becomes a link target.
    /// `start` is where its blocks begin, `tags` how many tags were aside before.
    pub fn finish_block(&mut self, c: &Content, start: usize, tags: usize, out: &mut Vec<Block>)
        requires
            start <= old(out)@.len(),
            tags <= old(self).deferred_tags@.len(),
            marks_here(*c) ==> old(self).can_emit(c.location->0),
            old(self).bookmarks_distinct(),
        ensures
            final(self).bookmarks_distinct(),
            final(self).deferred_tags@ == old(self).deferred_tags@.take(tags as int),
            ({
                let spliced = old(out)@.take(start as int) + tag_blocks(
                    old(self).deferred_tags@.skip(tags as int),
                ) + old(out)@.skip(start as int);
                let from = start + old(self).deferred_tags@.len() - tags;
                let shows = first_para(flow_looks(spliced), from) < spliced.len();
                let fresh = marks_here(*c) && shows && !old(self).emitted_bookmarks@.contains(
                    (c.location->0).0,
                );
                if fresh {
                    &&& final(self).emitted_bookmarks@ == old(self).emitted_bookmarks@.insert(
                        (c.location->0).0,
                    )
                    &&& exists|id: u32, name: Seq<char>|
                        {
                            &&& #[trigger] bracketed(spliced, final(out)@, from, id, name)
                            &&& bookmarked(
                                (DocxCtx {
                                    deferred_tags: final(self).deferred_tags,
                                    emitted_bookmarks: final(self).emitted_bookmarks,
                                    ..*old(self)
                                }),
                                *final(self),
                                c.location->0,
                                id,
                                name,
                            )
                        }
                } else {
                    &&& final(out)@ == spliced
                    &&& final(self).emitted_bookmarks@ == old(self).emitted_bookmarks@
                    &&& *final(self) == (DocxCtx {
                        deferred_tags: final(self).deferred_tags,
                        emitted_bookmarks: final(self).emitted_bookmarks,
                        ..*old(self)
                    })
                }
            }),
    {
        let local: Vec<Tag> = self.deferred_tags.split_off(tags);
        assert(local@ =~= old(self).deferred_tags@.skip(tags as int));
        proof {
            lemma_same_bookmarks(*old(self), *self);
        }
        let count: usize = local.len();
        splice_tags(out, start, &local);
        let ghost spliced = out@;
        let from: usize = out.len() - (out.len() - start - count);
        let bookmark: bool = c.labelled && !matches!(c.kind, Kind::Heading | Kind::Figure);
        if bookmark {
            if let Some(loc) = c.location {
                let mut shows: bool = false;
                let mut i: usize = from;
                while i < out.len()
                    invariant_except_break
                        !shows,
                        from <= i <= out@.len(),
                        out@ == spliced,
                        first_para(flow_looks(spliced), from as int) == first_para(
                            flow_looks(spliced),
                            i as int,
                        ),
                    ensures
                        out@ == spliced,
                        shows == (first_para(flow_looks(spliced), from as int) < spliced.len()),
                    decreases out@.len() - i,
                {
                    assert(flow_looks(spliced)[i as int] == flow_look(spliced[i as int]));
                    if let Block::Para(_) = &out[i] {
                        shows = true;
                        break;
                    }
                    i = i + 1;
                }
                if shows {
                    if let Some((id, name)) = self.bookmark_for_emission(loc) {
                        let ghost text = name@;
                        bracket_bookmark(out, from, id, name);
                        assert(bracketed(spliced, out@, from as int, id, text));
                    }
                }
            }
        }
    }
}

} // verus!
