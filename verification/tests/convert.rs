//! The conversion of content to blocks.

use typst_docx::content::{Class, Content, Kind, contains_class, content_text_chars};
use typst_docx::convert::assemble::{Assembler, FlowRoute, apply_pending_v};
use typst_docx::convert::blocks::{
    BlockRoute, Declined, FramedRoute, LayoutRoute, attribution_block, colbreak_block,
    drawing_or_image, fallback_para, finish_framed, pad_blocks, pagebreak_block, quote_blocks,
    route_block, route_framed, route_layout, rule_block, title_props,
};
use typst_docx::convert::boxes::{
    BlockFacts, BlockFill, BoxLook, Insets, ShapeStrokes, SideStroke, SideStrokes, block_borders,
    is_plain, resolve_insets, shape_stroke_sides, side_border, stamp_box_decorations,
    stroke_sides_nonuniform, sum_opt,
};
use typst_docx::convert::breaks::{
    drop_trailing_breaks, move_page_breaks_before_following_blocks, page_break_block,
};
use typst_docx::convert::canvas::{
    CanvasItem, coherent_mixed_placed_canvas, structurally_owned_placed_canvas,
};
use typst_docx::convert::overlay::{
    add_fill_tabs, fold_right_aligned_heading_overlays, is_right_bottom_heading_overlay,
};
use typst_docx::convert::predicates::{
    FrameFacts, body_extractable, body_is_frameless_flow_container, body_shape_only,
    paragraph_sole_block_container, peel_wrappers, placed_bodies_shape_only, review_span,
    unwrap_sole_image,
};
use typst_docx::ctx::format::{FixedAlignment, ParStyle};
use typst_docx::ctx::state::DocxCtx;
use typst_docx::dom::{
    Anchor, AnchorPos, AnchorWrap, Block, Drawing, Indent, Jc, Location, Para, ParaChild,
    ParaProps, PicClip, ReviewCandidateKind, Run, RunProps, ShapeGeom, ShapeSpec, Span, Spacing,
    TabAlign, Tag, TextBox, TextBoxWrap,
};
use typst_docx::length::{POINT, Rel};

fn element(kind: Kind, children: Vec<Content>) -> Content {
    Content { kind, span: Span(0), location: None, labelled: false, text_chars: 0, children }
}

fn words() -> Content {
    element(Kind::Text { blank: false }, vec![])
}

fn text(s: &str) -> ParaChild {
    ParaChild::Run(Run::Text { props: RunProps::default(), text: s.into() })
}

fn para(s: &str) -> Block {
    Block::Para(Para { props: ParaProps::default(), content: vec![text(s)] })
}

fn tag(n: u128) -> Tag {
    Tag::End { location: Location(n) }
}

/// A block in a few characters.
fn sketch(block: &Block) -> String {
    match block {
        Block::Para(p) => {
            let mut out = String::new();
            if p.props.page_break_before {
                out.push('^');
            }
            if let Some(before) = p.props.spacing.and_then(|s| s.before) {
                out.push_str(&format!("{before}:"));
            }
            for child in &p.content {
                match child {
                    ParaChild::Run(Run::Text { text, .. }) => out.push_str(text),
                    ParaChild::Run(Run::PageBreak) => out.push('/'),
                    ParaChild::Run(Run::ColumnBreak) => out.push('|'),
                    ParaChild::Run(Run::FillTab) => out.push('>'),
                    ParaChild::Run(Run::Drawing(_)) => out.push('D'),
                    ParaChild::Tag(_) => out.push('t'),
                    ParaChild::BookmarkStart { name, .. } => out.push_str(&format!("[{name} ")),
                    ParaChild::BookmarkEnd { .. } => out.push(']'),
                    _ => out.push('?'),
                }
            }
            out
        }
        Block::Table(_) => "T".into(),
        Block::Tag(_) => "t".into(),
        Block::FlowSpace { dxa } => format!("+{dxa}"),
        Block::WeakPageBreak => "~".into(),
        _ => "?".into(),
    }
}

fn sketches(blocks: &[Block]) -> Vec<String> {
    blocks.iter().map(sketch).collect()
}

fn page_break() -> Block {
    page_break_block(false)
}

fn list() -> Block {
    match facts_panel() {
        Some(t) => t,
        None => panic!("a table"),
    }
}

fn facts(fill: BlockFill) -> BlockFacts {
    BlockFacts {
        fill,
        strokes: SideStrokes { top: None, left: None, bottom: None, right: None },
        width: None,
        height: None,
        inset_left: None,
        inset_right: None,
        inset_top: None,
        inset_bottom: None,
        above: None,
        below: None,
    }
}

fn facts_panel() -> Option<Block> {
    let mut f = facts(BlockFill::Solid([1, 2, 3]));
    f.height = Some(Rel { abs: 10 * POINT, ratio: 0 });
    let mut out = Vec::new();
    DocxCtx::new().handle_block_box(&f, vec![], &mut out);
    out.pop()
}

#[test]
fn page_breaks_move_onto_the_next_paragraph() {
    let moved = |mut blocks: Vec<Block>| {
        move_page_breaks_before_following_blocks(&mut blocks);
        sketches(&blocks)
    };
    assert_eq!(moved(vec![para("a"), page_break(), para("b")]), vec!["a", "^b"]);
    assert_eq!(
        moved(vec![page_break(), page_break(), para("b")]),
        vec!["/", "/", "^b"]
    );
    assert_eq!(
        moved(vec![
            para("a"),
            page_break(),
            Block::Tag(tag(1)),
            Block::FlowSpace { dxa: 40 },
            Block::FlowSpace { dxa: 2 },
            para("b"),
            para("c")
        ]),
        vec!["a", "t", "^42:b", "c"]
    );
    assert_eq!(moved(vec![Block::WeakPageBreak, para("b")]), vec!["^b"]);
    assert_eq!(moved(vec![Block::WeakPageBreak, page_break(), para("b")]), vec!["^/", "^b"]);
    assert_eq!(moved(vec![page_break(), Block::WeakPageBreak, para("b")]), vec!["^b"]);
    assert_eq!(moved(vec![page_break(), list()]), vec!["/", "T"]);
    assert_eq!(moved(vec![Block::WeakPageBreak, list()]), vec!["^0:", "T"]);
    assert_eq!(moved(vec![para("a"), page_break()]), vec!["a", "/"]);
    assert_eq!(moved(vec![para("a"), Block::WeakPageBreak]), vec!["a"]);
}

#[test]
fn trailing_breaks_are_dropped() {
    let mut blocks = vec![para("a"), page_break(), page_break()];
    drop_trailing_breaks(&mut blocks);
    assert_eq!(sketches(&blocks), vec!["a"]);
    let mut blocks = vec![page_break(), Block::Tag(tag(1))];
    drop_trailing_breaks(&mut blocks);
    assert_eq!(sketches(&blocks), vec!["/", "t"]);
}

#[test]
fn space_goes_to_the_next_block() {
    let applied = |mut blocks: Vec<Block>, from: usize| {
        let rest = apply_pending_v(&mut blocks, from, 30);
        (sketches(&blocks), rest)
    };
    let strings = |s: &[&str]| s.iter().map(|s| s.to_string()).collect::<Vec<_>>();
    assert_eq!(applied(vec![para("a"), para("b")], 1), (strings(&["a", "30:b"]), 0));
    assert_eq!(applied(vec![Block::Tag(tag(1)), list()], 0), (strings(&["t", "+30", "T"]), 0));
    assert_eq!(applied(vec![Block::FlowSpace { dxa: 5 }], 0), (strings(&["+35"]), 0));
    assert_eq!(applied(vec![para("a")], 1), (strings(&["a"]), 30));
}

fn style() -> ParStyle {
    ParStyle {
        justify: false,
        align: FixedAlignment::Start,
        right_to_left: false,
        line_numbers: false,
        font_size: 10 * POINT,
        leading: 6_500_000,
        frame_height: 7 * POINT,
        spacing: 6_500_000,
        first_line_indent: 12 * POINT,
        indent_all: false,
        hanging_indent: 0,
    }
}

const NO_FRAME: FrameFacts = FrameFacts { filled: false, bordered: false, uneven: false };

#[test]
fn paragraphs_are_gathered() {
    let mut ctx = DocxCtx::new();
    let mut a = Assembler::new();
    a.start_paragraph(&mut ctx, &style(), Span(4));
    a.finish_paragraph(&mut ctx, vec![text("a")], None);
    a.vspace(Some(2 * POINT));
    a.vspace(None);
    a.start_paragraph(&mut ctx, &style(), Span(5));
    a.finish_paragraph(&mut ctx, vec![text("b")], Some(Location(3)));
    let blocks = a.finish(9000);
    assert_eq!(sketches(&blocks), vec!["a", "40:[_Ref1 b]"]);
    match (&blocks[0], &blocks[1]) {
        (Block::Para(first), Block::Para(second)) => {
            assert_eq!(first.props.ind, None);
            assert_eq!(second.props.ind.and_then(|i| i.first_line), Some(240));
            let origin = second.props.review_origin.unwrap();
            assert_eq!((origin.span, origin.kind), (Span(5), ReviewCandidateKind::Paragraph));
        }
        _ => panic!("paragraphs"),
    }
}

#[test]
fn outer_page_breaks_leave_no_block() {
    let convert = |lead: usize, trail: usize, space: Option<i64>| {
        let mut ctx = DocxCtx::new();
        let mut a = Assembler::new();
        for i in 0..lead {
            a.page_break(i % 2 == 0, false, false);
        }
        a.tag(&mut ctx, tag(1), None);
        a.page_break(false, false, false);
        a.start_paragraph(&mut ctx, &style(), Span(4));
        a.finish_paragraph(&mut ctx, vec![text("a")], None);
        a.page_break(false, false, false);
        a.start_paragraph(&mut ctx, &style(), Span(5));
        a.finish_paragraph(&mut ctx, vec![text("b")], None);
        a.vspace(space);
        for _ in 0..trail {
            a.page_break(false, false, false);
        }
        sketches(&a.finish(0))
    };
    assert_eq!(convert(0, 0, None), vec!["t", "a", "^b"]);
    for (lead, trail) in [(1, 0), (3, 0), (0, 1), (0, 3), (2, 2)] {
        assert_eq!(convert(lead, trail, None), convert(0, 0, None));
        assert_eq!(convert(lead, trail, Some(POINT)), convert(0, 0, Some(POINT)));
    }
}

#[test]
fn a_space_alone_is_no_paragraph() {
    let mut ctx = DocxCtx::new();
    let mut a = Assembler::new();
    a.start_inline(&mut ctx, true, Span(1));
    a.end_inline(vec![text(" ")]);
    a.parbreak();
    a.start_inline(&mut ctx, true, Span(1));
    a.end_inline(vec![text(" ")]);
    a.start_inline(&mut ctx, false, Span(2));
    a.end_inline(vec![text("x")]);
    a.split(vec![text("y")], true);
    let blocks = a.finish(0);
    assert_eq!(sketches(&blocks), vec![" xy"]);
    match &blocks[0] {
        Block::Para(p) => assert!(p.props.review_origin.is_none()),
        _ => panic!("a paragraph"),
    }
}

#[test]
fn page_anchors_wait_for_a_paragraph() {
    let mut ctx = DocxCtx::new();
    let mut a = Assembler::new();
    a.tag(&mut ctx, tag(1), Some((Location(1), 1)));
    a.start_paragraph(&mut ctx, &style(), Span(1));
    a.finish_paragraph(&mut ctx, vec![text("a")], None);
    a.tag(&mut ctx, tag(1), Some((Location(2), 1)));
    a.tag(&mut ctx, tag(1), Some((Location(2), 2)));
    let from = a.start_block();
    a.blocks.push(list());
    a.end_block(from);
    assert_eq!(
        sketches(&a.finish(0)),
        vec!["t", "[_TypstPage1 ]at[_TypstPage2 ]t", "T"]
    );
}

#[test]
fn flow_children_have_a_route() {
    let a = Assembler::new();
    let route = |c: &Content| a.classify(c, NO_FRAME);
    assert_eq!(route(&element(Kind::Pagebreak, vec![])), FlowRoute::LeadingBreak);
    assert_eq!(route(&element(Kind::Par, vec![words()])), FlowRoute::Paragraph { continues: false });
    assert_eq!(route(&element(Kind::Equation { block: true }, vec![])), FlowRoute::Block);
    assert_eq!(
        route(&element(Kind::Equation { block: false }, vec![])),
        FlowRoute::Split { unreviewed: true }
    );
    let boxed = |inner| element(Kind::Box { plain: true, fixed_height: false }, vec![inner]);
    assert_eq!(route(&boxed(words())), FlowRoute::Split { unreviewed: false });
    assert_eq!(route(&boxed(element(Kind::Table, vec![]))), FlowRoute::Block);
    let around_columns = element(Kind::Par, vec![boxed(element(Kind::Columns, vec![words()]))]);
    assert_eq!(route(&around_columns), FlowRoute::SoleContainer);
    assert_eq!(route(&words()), FlowRoute::Inline);
}

#[test]
fn wrappers_peel_off() {
    let image = || element(Kind::Image, vec![]);
    let space = || element(Kind::Space, vec![]);
    let wrapped = element(
        Kind::Styled,
        vec![element(Kind::Sequence, vec![space(), image(), element(Kind::Tag, vec![])])],
    );
    assert_eq!(peel_wrappers(&wrapped).kind, Kind::Image);
    assert!(unwrap_sole_image(&wrapped).is_some());
    let two = element(Kind::Sequence, vec![image(), image()]);
    assert_eq!(peel_wrappers(&two).kind, Kind::Sequence);
    let mut inner = words();
    inner.span = Span(9);
    assert_eq!(review_span(&element(Kind::Styled, vec![inner])), Span(9));
    assert_eq!(review_span(&two), Span(0));
}

#[test]
fn labelled_equations_are_not_extracted() {
    let mut label = words();
    label.labelled = true;
    let equation = |inner| element(Kind::Equation { block: true }, vec![inner]);
    assert!(!body_extractable(&element(Kind::Sequence, vec![equation(label)])));
    let mut labelled = equation(words());
    labelled.labelled = true;
    assert!(body_extractable(&labelled));
    let spelled = element(Kind::Raw { block: false, label_like: true }, vec![]);
    assert!(!body_extractable(&equation(spelled)));
}

#[test]
fn containers_alone_in_a_paragraph_may_be_blocks() {
    let boxed = |inner| element(Kind::Box { plain: false, fixed_height: false }, vec![inner]);
    let filled = FrameFacts { filled: true, bordered: false, uneven: false };
    let uneven = FrameFacts { filled: false, bordered: true, uneven: true };
    let list = boxed(element(Kind::List, vec![]));
    let short = boxed(words());
    assert!(paragraph_sole_block_container(&list, filled).is_some());
    assert!(paragraph_sole_block_container(&short, filled).is_none());
    assert!(paragraph_sole_block_container(&short, uneven).is_some());
    assert!(paragraph_sole_block_container(&list, NO_FRAME).is_none());
    let figure = element(Kind::Grid, vec![element(Kind::Figure, vec![])]);
    assert!(!body_is_frameless_flow_container(&figure));
    assert!(paragraph_sole_block_container(&boxed(figure), NO_FRAME).is_some());
    assert!(body_is_frameless_flow_container(&element(Kind::Grid, vec![])));
}

fn place(inner: Content) -> Content {
    element(Kind::Place { float: false }, vec![inner])
}

fn line() -> Content {
    element(Kind::Line { rule: false }, vec![])
}

#[test]
fn shapes_alone_are_recognized() {
    assert!(body_shape_only(&element(Kind::Rotate, vec![line()])));
    assert!(!body_shape_only(&element(Kind::Rect, vec![words()])));
    assert!(body_shape_only(&element(Kind::Rect, vec![])));
    assert!(!body_shape_only(&element(Kind::Space, vec![])));
    assert!(placed_bodies_shape_only(&element(Kind::Sequence, vec![words(), place(line())])));
    assert!(!placed_bodies_shape_only(&element(Kind::Sequence, vec![place(words())])));
}

#[test]
fn a_canvas_mixes_shapes_and_labels() {
    let canvas = |inner| element(Kind::Block { plain: true, content: true }, vec![inner]);
    let both = canvas(element(Kind::Sequence, vec![place(line()), place(words())]));
    assert!(structurally_owned_placed_canvas(&both));
    let lines = canvas(element(Kind::Sequence, vec![place(line()), place(line())]));
    assert!(!structurally_owned_placed_canvas(&lines));
    let loose = canvas(element(Kind::Sequence, vec![place(line()), place(words()), words()]));
    assert!(!structurally_owned_placed_canvas(&loose));
    let start = |n| CanvasItem::PlaceStart(Some(Location(n)));
    let end = |n| CanvasItem::End(Location(n));
    let frame = vec![
        start(1),
        CanvasItem::Group(vec![CanvasItem::Shape]),
        end(1),
        start(2),
        CanvasItem::Text,
        end(2),
    ];
    assert!(coherent_mixed_placed_canvas(&both, &frame));
    assert!(!coherent_mixed_placed_canvas(&lines, &frame));
    let frame = vec![start(1), CanvasItem::Shape, end(1), start(2), end(2), CanvasItem::Text];
    assert!(!coherent_mixed_placed_canvas(&both, &frame));
    let bounded = element(
        Kind::Box { plain: true, fixed_height: true },
        vec![element(Kind::Layout, vec![])],
    );
    assert!(coherent_mixed_placed_canvas(&bounded, &frame));
    let frame = vec![start(1), CanvasItem::Shape, CanvasItem::Text, CanvasItem::Image, start(2)];
    assert!(!coherent_mixed_placed_canvas(&bounded, &frame));
}

const FRESH: Declined = Declined { canvas: false, shapes: false, framed: false };

#[test]
fn block_elements_have_a_route() {
    let route = |c: &Content, d: Declined| route_block(c, d, false);
    assert_eq!(route(&element(Kind::Heading, vec![]), FRESH), BlockRoute::Heading);
    assert_eq!(route(&element(Kind::Line { rule: true }, vec![]), FRESH), BlockRoute::Rule);
    assert_eq!(route(&line(), FRESH), BlockRoute::Inline);
    assert_eq!(route(&element(Kind::Parbreak, vec![]), FRESH), BlockRoute::Nothing);
    let rect = element(Kind::Rect, vec![words()]);
    assert_eq!(route(&rect, FRESH), BlockRoute::Framed);
    let mut d = FRESH;
    d.framed = true;
    assert_eq!(route(&rect, d), BlockRoute::TextBox);
    assert_eq!(route_block(&rect, d, true), BlockRoute::FramedImage);
    let strut = element(Kind::Box { plain: true, fixed_height: false }, vec![]);
    assert_eq!(route(&strut, FRESH), BlockRoute::Strut);
    let shapes = element(
        Kind::Block { plain: true, content: true },
        vec![element(Kind::Sequence, vec![place(line())])],
    );
    assert_eq!(route(&shapes, FRESH), BlockRoute::PlacedShapes);
    d.shapes = true;
    assert_eq!(route(&shapes, d), BlockRoute::Block);
    let computed = element(Kind::Block { plain: true, content: false }, vec![]);
    assert_eq!(route(&computed, FRESH), BlockRoute::BlockImage);
    let bounded = element(
        Kind::Box { plain: true, fixed_height: true },
        vec![element(Kind::Layout, vec![])],
    );
    assert_eq!(route(&bounded, FRESH), BlockRoute::Canvas);
    d.canvas = true;
    assert_eq!(route(&bounded, d), BlockRoute::LayoutCanvas);
}

#[test]
fn layout_results_have_a_route() {
    assert_eq!(route_layout(None), LayoutRoute::WholeRegion);
    assert_eq!(route_layout(Some(&words())), LayoutRoute::Blocks);
    let rect = element(Kind::Rect, vec![place(line())]);
    assert_eq!(route_layout(Some(&rect)), LayoutRoute::Canvas);
}

fn stroke(sz: u32) -> Option<SideStroke> {
    Some(SideStroke { color: Some([9, 8, 7]), dash: None, sz })
}

#[test]
fn framed_containers_become_paragraphs() {
    let rect = |inner| element(Kind::Rect, vec![inner]);
    let list = || element(Kind::List, vec![]);
    let plain = facts(BlockFill::Unfilled);
    assert_eq!(route_framed(&rect(words()), &plain), FramedRoute::Label);
    assert_eq!(route_framed(&rect(list()), &plain), FramedRoute::Declined);
    assert_eq!(route_framed(&rect(element(Kind::Columns, vec![list()])), &plain), FramedRoute::Flow);
    let solid = facts(BlockFill::Solid([1, 1, 1]));
    assert_eq!(route_framed(&rect(words()), &solid), FramedRoute::Declined);
    assert_eq!(route_framed(&rect(list()), &solid), FramedRoute::Boxed);
    let gradient = facts(BlockFill::Gradient(None));
    assert_eq!(route_framed(&rect(list()), &gradient), FramedRoute::Declined);
    let mut ruled = facts(BlockFill::Unfilled);
    ruled.strokes.left = stroke(8);
    assert_eq!(route_framed(&rect(words()), &ruled), FramedRoute::Boxed);
    let mut ctx = DocxCtx::new();
    let mut out = vec![para("x")];
    ruled.above = Some(POINT);
    let inner = vec![Block::Tag(tag(1)), para("a")];
    finish_framed(&mut ctx, FramedRoute::Boxed, &ruled, inner, &mut out);
    assert_eq!(sketches(&out), vec!["x", "t", "a"]);
    assert_eq!(ctx.deferred_tags.len(), 1);
    match &out[2] {
        Block::Para(p) => assert_eq!(p.props.pbdr.and_then(|b| b.left).map(|l| l.sz), Some(8)),
        _ => panic!("a paragraph"),
    }
}

#[test]
fn strokes_become_borders() {
    let border = side_border(&SideStroke { color: None, dash: Some(vec![POINT]), sz: 4 });
    assert_eq!((border.style, border.sz, border.space), ("dotted", 4, 4));
    assert_eq!(border.color, [0, 0, 0]);
    let dashed = side_border(&SideStroke { color: None, dash: Some(vec![POINT + 1]), sz: 4 });
    assert_eq!(dashed.style, "dashed");
    let strokes = |top, left| SideStrokes { top, left, bottom: None, right: None };
    assert!(block_borders(&strokes(None, None)).is_none());
    assert!(!stroke_sides_nonuniform(&strokes(None, None)));
    assert!(stroke_sides_nonuniform(&strokes(stroke(1), stroke(1))));
    assert!(is_plain(false, false, &strokes(None, None)));
    assert!(!is_plain(false, true, &strokes(None, None)));
    let auto = shape_stroke_sides(ShapeStrokes::Auto, false, 8);
    assert!(auto.top.is_some() && !stroke_sides_nonuniform(&auto));
    assert!(shape_stroke_sides(ShapeStrokes::Auto, true, 8).top.is_none());
}

#[test]
fn boxes_stamp_their_paragraphs() {
    let look = BoxLook {
        shd_fill: Some([1, 2, 3]),
        pbdr: None,
        insets: resolve_insets(Some(POINT), None, Some(2 * POINT), Some(0)),
        above: Some(100),
        below: Some(50),
    };
    assert_eq!(
        look.insets,
        Insets { left: Some(20), right: None, top: Some(40), bottom: None }
    );
    let mut blocks = vec![para("a"), Block::Tag(tag(1)), para("b")];
    stamp_box_decorations(&mut blocks, &look);
    match (&blocks[0], &blocks[2]) {
        (Block::Para(a), Block::Para(b)) => {
            assert_eq!(a.props.spacing.unwrap().before, Some(140));
            assert_eq!(b.props.spacing.unwrap().after, Some(50));
            assert_eq!(b.props.spacing.unwrap().before, None);
            assert!(a.props.keep_next && a.props.keep_lines);
            assert!(!b.props.keep_next && b.props.keep_lines);
            assert_eq!(b.props.ind.unwrap().left, Some(20));
            assert_eq!(b.props.shd_fill, Some([1, 2, 3]));
        }
        _ => panic!("paragraphs"),
    }
    assert_eq!(sum_opt(Some(1), None), Some(1));
    assert_eq!(sum_opt(None, None), None);
    assert_eq!(sum_opt(Some(i32::MAX), Some(1)), Some(i32::MAX));
}

#[test]
fn low_filled_blocks_are_panels() {
    let ctx = DocxCtx::new();
    let mut f = facts(BlockFill::Solid([1, 2, 3]));
    f.height = Some(Rel { abs: 0, ratio: 600_000 });
    f.width = Some(Rel { abs: 0, ratio: 500_000 });
    let mut out = Vec::new();
    ctx.handle_block_box(&f, vec![para("a")], &mut out);
    match &out[0] {
        Block::Table(t) => {
            assert_eq!(t.props.width_dxa, Some(4500));
            assert_eq!(t.rows[0].height.map(|h| (h.val, h.exact)), Some((8376, false)));
            assert_eq!(t.rows[0].cells[0].blocks.len(), 1);
        }
        _ => panic!("a table"),
    }
    f.height = Some(Rel { abs: 1, ratio: 600_000 });
    out.clear();
    ctx.handle_block_box(&f, vec![para("a")], &mut out);
    assert_eq!(sketches(&out), vec!["a"]);
}

#[test]
fn small_blocks_have_their_form() {
    assert_eq!(sketch(&pagebreak_block(true, false, false)), "~");
    assert_eq!(sketch(&pagebreak_block(false, true, false)), "~");
    assert_eq!(sketch(&pagebreak_block(true, true, true)), "/");
    assert_eq!(sketch(&pagebreak_block(false, false, false)), "/");
    assert_eq!(sketch(&colbreak_block()), "|");
    assert!(fallback_para(vec![]).is_none());
    assert!(drawing_or_image(None, vec![]).is_none());
    assert_eq!(drawing_or_image(Some(Run::FillTab), vec![Run::PageBreak]).as_ref().map(sketch), Some(">".into()));
    match rule_block(&SideStroke { color: None, dash: None, sz: 6 }) {
        Block::Para(p) => assert_eq!(p.props.pbdr.unwrap().bottom.unwrap().sz, 6),
        _ => panic!("a paragraph"),
    }
    let mut blocks = vec![para("q")];
    quote_blocks(&mut blocks, Some(220));
    pad_blocks(&mut blocks, POINT, 0);
    blocks.extend(attribution_block(vec![Run::Tab], 220));
    match (&blocks[0], &blocks[1]) {
        (Block::Para(q), Block::Para(a)) => {
            assert_eq!(q.props.style.as_deref(), Some("Quote"));
            let ind = Indent { left: Some(240), right: Some(220), first_line: None, hanging: None };
            assert_eq!(q.props.ind, Some(ind));
            assert_eq!(a.props.jc, Some(Jc::End));
        }
        _ => panic!("paragraphs"),
    }
    let origin = DocxCtx::new().review_origin(Span(1), ReviewCandidateKind::Heading);
    let title = title_props(None, Some(POINT), None, origin);
    assert_eq!(title.style.as_deref(), Some("Title"));
    assert!(title.keep_next);
    let spacing = Spacing { before: Some(20), ..Spacing::default() };
    assert_eq!(title.spacing, Some(spacing));
}

#[test]
fn titles_are_link_targets() {
    let mut ctx = DocxCtx::new();
    let mut out = vec![para("x")];
    ctx.finish_title(ParaProps::default(), vec![text("T")], None, &mut out);
    ctx.finish_title(ParaProps::default(), vec![text("T")], Some(Location(7)), &mut out);
    ctx.finish_title(ParaProps::default(), vec![text("T")], Some(Location(7)), &mut out);
    assert_eq!(sketches(&out), vec!["x", "T", "[_Ref1 T]", "T"]);
}

#[test]
fn finished_blocks_carry_their_tags_and_label() {
    let mut ctx = DocxCtx::new();
    ctx.deferred_tags = vec![tag(1), tag(2)];
    let mut block = element(Kind::Block { plain: true, content: true }, vec![]);
    block.labelled = true;
    block.location = Some(Location(7));
    let mut out = vec![para("x"), para("a"), para("b")];
    ctx.finish_block(&block, 1, 1, &mut out);
    assert_eq!(sketches(&out), vec!["x", "t", "[_Ref1 a", "b]"]);
    assert_eq!(ctx.deferred_tags, vec![tag(1)]);
    block.kind = Kind::Heading;
    let mut out = vec![para("h")];
    ctx.finish_block(&block, 0, 1, &mut out);
    assert_eq!(sketches(&out), vec!["h"]);
}

fn label(level: Option<u8>) -> Block {
    let mut heading = Para { props: ParaProps::default(), content: vec![text("date")] };
    heading.props.outline_lvl = level;
    let anchor = Anchor {
        z: 1,
        pos_h: AnchorPos { rel_from: "margin", align: Some("right"), offset: None },
        pos_v: AnchorPos { rel_from: "margin", align: Some("bottom"), offset: None },
        wrap: AnchorWrap::Off,
        dist: [0, 0, 0, 0],
        behind: false,
    };
    let shape = ShapeSpec {
        geom: ShapeGeom::Rect,
        fill: None,
        stroke: None,
        txbx: Some(TextBox {
            ins: [0, 0, 0, 0],
            blocks: vec![Block::Para(heading)],
            wrap: TextBoxWrap::Square,
            autofit: true,
        }),
    };
    let drawing = Drawing {
        rel: String::new(),
        svg_rel: None,
        compatibility_split_ids: None,
        w_emu: 1,
        h_emu: 1,
        source_offset_emu: [0, 0],
        alt: None,
        decorative: false,
        docpr_id: 1,
        name: String::new(),
        anchor: Some(anchor),
        shape: Some(shape),
        group: None,
        pic_clip: PicClip::default(),
    };
    Block::Para(Para {
        props: ParaProps::default(),
        content: vec![ParaChild::Run(Run::Drawing(drawing))],
    })
}

#[test]
fn corner_labels_join_their_line() {
    assert!(is_right_bottom_heading_overlay(&label(Some(1))));
    assert!(!is_right_bottom_heading_overlay(&label(None)));
    let mut blocks = vec![para("Title"), Block::Tag(tag(1)), label(Some(1)), para("z")];
    fold_right_aligned_heading_overlays(&mut blocks, 9000);
    assert_eq!(sketches(&blocks), vec!["Title>date", "t", "z"]);
    match &blocks[0] {
        Block::Para(p) => {
            assert_eq!((p.props.tabs[0].val, p.props.tabs[0].pos), (TabAlign::End, 9000));
        }
        _ => panic!("a paragraph"),
    }
    let mut alone = vec![label(Some(1))];
    fold_right_aligned_heading_overlays(&mut alone, 9000);
    assert_eq!(sketches(&alone), vec!["D"]);
}

#[test]
fn fill_tabs_get_a_stop() {
    let filled = Para {
        props: ParaProps::default(),
        content: vec![text("a"), ParaChild::Run(Run::FillTab), text("b")],
    };
    let mut blocks = vec![Block::Para(filled), para("c")];
    add_fill_tabs(&mut blocks, 500);
    add_fill_tabs(&mut blocks, 700);
    match (&blocks[0], &blocks[1]) {
        (Block::Para(a), Block::Para(c)) => {
            assert_eq!(a.props.tabs.len(), 1);
            assert_eq!(a.props.tabs[0].pos, 500);
            assert!(c.props.tabs.is_empty());
        }
        _ => panic!("paragraphs"),
    }
}

#[test]
fn content_is_searched_throughout() {
    let mut a = words();
    a.text_chars = 3;
    let mut b = words();
    b.text_chars = 4;
    let c = element(Kind::Strong, vec![a, element(Kind::Emph, vec![b])]);
    assert_eq!(content_text_chars(&c), 7);
    assert!(contains_class(&c, Class::VisibleText));
    assert!(!contains_class(&c, Class::Place));
}
