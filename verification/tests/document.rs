//! Sections, headers and footers, styles and inventories.

use typst_docx::content::{Content, Kind};
use typst_docx::ctx::state::DocxCtx;
use typst_docx::document::assembly::{
    SectionContent, assemble_sections, even_and_odd_headers, finish_styles, lowering_steps,
    normalize_backgrounds, page_settings, position_tags, section_fallback,
};
use typst_docx::document::furniture::{
    FurniturePlan, FurnitureSamples, FurnitureSlot, LoweredFurniture, adjust_furniture_band,
    furniture_content_height, preflight_furniture, single_line_furniture_height,
};
use typst_docx::document::geometry::{
    Binding, ContentId, HAlign, LineFacts, LineScope, Marginal, NumberingId, Overlay, PageFacts,
    PageSize, SectGeom, clamp_band, run_geometry, same_section,
};
use typst_docx::document::inventory::{
    FieldOwner, FieldVisibility, blocks_text_chars, drawing_inventory, dynamic_field_inventory,
    font_inventory,
};
use typst_docx::document::page_blocks::{
    align_furniture, begin_furniture, dense_visual_page_block,
    end_furniture, furniture_blocks, furniture_horizontal_alignment, page_fill,
    page_overlay_block, para_has_page_field, set_ctx_geometry, solid_page_fill_block,
};
use typst_docx::document::page_numbers::{
    NumberPattern, NumberPiece, PageNumbering, field_format_switch, numbering_fmt,
    numbering_fmt_kth, page_number_para,
};
use typst_docx::document::parts::{
    add_page_number, build_furniture_refs, has_header_furniture, section_uses_even_furniture,
    start_section,
};
use typst_docx::document::review::{SnapshotNode, collect_review_candidates, plain_review_text};
use typst_docx::document::sections::{
    FixedAlign, FlowItem, FlowKind, Parity, SectionRun, page_runs, resolve_sections,
};
use typst_docx::document::signature::furniture_signature;
use typst_docx::document::sources::{
    FurnitureSource, attribute_sampled_chars, lowered_furniture, record_sampled_furniture,
};
use typst_docx::document::styles::{
    apply_style_inheritance, demote_unrepresentable_heading_booleans, derive_heading_styles,
    vote_text_defaults,
};
use typst_docx::document::tags::{TagWalk, collect_tags, synthetic_position};
use typst_docx::dom::{
    Block, Cell, CellBorders, CellMargins, Drawing, Field, FieldCacheStatus, FieldDisplay,
    FieldMode, Footnote, HdrFtrRef, HeadingStyleSample, Jc, ListLevel, Location, NumFmt,
    NumberingTable, Para, ParaChild, ParaProps, PicClip, ReviewCandidateKind, ReviewJoinId,
    ReviewOrigin, Row, RowHeight, Run, RunProps, SectPr, SectType, ShapeGeom, ShapeSpec, Span,
    Spacing, Tag, TagElem, Tbl, TblProps, TextBox, TextBoxWrap, TextDefaults, VAlign,
};
use typst_docx::heading_numbering::{Outcome, Parts};
use typst_docx::length::{POINT, Rel};
use typst_docx::rels::{RelMode, Rels};
use typst_docx::report::DecisionReason;

fn run(s: &str) -> Run {
    Run::Text { props: RunProps::default(), text: s.into() }
}

fn para_of(content: Vec<ParaChild>) -> Para {
    Para { props: ParaProps::default(), content }
}

fn para(s: &str) -> Block {
    Block::Para(para_of(vec![ParaChild::Run(run(s))]))
}

fn start(n: u128) -> Tag {
    Tag::Start { location: Some(Location(n)), elem: TagElem::Other }
}

fn item(kind: FlowKind) -> FlowItem {
    FlowItem { kind, styles: 0, align_y: FixedAlign::Start, page: None }
}

fn content() -> FlowItem {
    item(FlowKind::Content)
}

fn tag_item(n: u128) -> FlowItem {
    item(FlowKind::Tag(start(n)))
}

fn break_item(boundary: bool, weak: bool, to: Option<Parity>) -> FlowItem {
    item(FlowKind::Pagebreak { boundary, weak, to })
}

fn hard() -> FlowItem {
    break_item(false, false, None)
}

fn facts() -> PageFacts {
    PageFacts {
        width: Some(600 * POINT),
        height: Some(840 * POINT),
        flipped: false,
        margin_left: None,
        margin_top: None,
        margin_right: None,
        margin_bottom: None,
        two_sided: false,
        columns: 1,
        header_ascent: Rel { abs: 0, ratio: 300_000 },
        footer_descent: Rel { abs: 0, ratio: 300_000 },
        binding: None,
        ltr: true,
        line_numbering: None,
        font_size: 11 * POINT,
        numbering: None,
        number_at_top: false,
        number_x: Some(HAlign::Center),
        header: Marginal::Auto,
        footer: Marginal::Auto,
        background: None,
        foreground: None,
        fill: None,
        hyphenate: None,
        justify: false,
    }
}

fn geometry() -> SectGeom {
    run_geometry(&facts(), &[content()], &vec![])
}

#[test]
fn geometry_follows_the_page_setup() {
    let g = geometry();
    assert_eq!((g.page_w, g.page_h, g.landscape), (12000, 16800, false));
    // Automatic margins are five forty-seconds of the shorter side.
    assert_eq!((g.margin_left, g.margin_top), (1429, 1429));
    assert_eq!((g.header_band, g.footer_band), (1000, 1000));
    assert_eq!((g.col_space, g.gutter), (480, 0));
    assert_eq!(g.number_jc, Some(Jc::Center));
    let mut f = facts();
    f.flipped = true;
    f.margin_left = Some(Rel { abs: 72 * POINT, ratio: 0 });
    f.margin_right = Some(Rel { abs: 36 * POINT, ratio: 0 });
    f.two_sided = true;
    f.binding = Some(Binding::Right);
    f.number_x = Some(HAlign::End);
    f.ltr = false;
    f.header = Marginal::Suppressed;
    f.footer = Marginal::Content(ContentId(4));
    f.background = Some(Overlay { content: ContentId(5), empty: true });
    f.foreground = Some(Overlay { content: ContentId(6), empty: false });
    f.justify = true;
    f.line_numbering = Some(LineFacts { clearance: None, scope: LineScope::Page });
    let g = run_geometry(&f, &[content()], &vec![]);
    assert_eq!((g.page_w, g.page_h, g.landscape), (16800, 12000, true));
    assert_eq!((g.margin_left, g.margin_right, g.gutter), (720, 720, 720));
    assert!(g.mirror_margins && g.rtl_gutter && g.header_suppressed && g.hyphenate);
    assert_eq!((g.header, g.footer), (None, Some(ContentId(4))));
    assert_eq!((g.background, g.foreground), (None, Some(ContentId(6))));
    assert_eq!(g.number_jc, Some(Jc::Start));
    let lines = g.line_numbers.unwrap();
    // 2.6 percent of the width, between 0.75 and 2.5 em.
    assert_eq!((lines.restart, lines.distance), ("newPage", 437));
}

#[test]
fn automatic_sizes_come_from_the_layout() {
    let mut f = facts();
    f.height = None;
    let mut items = vec![content(), content(), tag_item(1)];
    items[0].page = Some(1);
    items[1].page = Some(2);
    items[2].page = Some(9);
    let sizes = vec![
        PageSize { x: 600 * POINT, y: 100 * POINT },
        PageSize { x: 500 * POINT, y: 300 * POINT },
    ];
    let g = run_geometry(&f, &items, &sizes);
    assert_eq!((g.page_w, g.page_h), (12000, 6000));
    let g = run_geometry(&f, &items, &vec![]);
    assert_eq!(g.page_h, 16838);
    f.width = None;
    assert_eq!(run_geometry(&f, &items, &vec![]).page_w, 11906);
}

#[test]
fn geometry_reads_its_items() {
    let mut centered = content();
    centered.align_y = FixedAlign::Center;
    let reset = Tag::Start { location: None, elem: TagElem::PageReset(5) };
    let g = run_geometry(&facts(), &[item(FlowKind::Tag(reset)), centered], &vec![]);
    assert_eq!((g.vertical_align, g.page_num_start), (Some(VAlign::Center), Some(5)));
    let g = run_geometry(&facts(), &[content(), centered], &vec![]);
    assert_eq!((g.vertical_align, g.page_num_start), (None, None));
}

#[test]
fn bands_stay_inside_the_margin() {
    assert_eq!(clamp_band(500, 1000), 500);
    assert_eq!(clamp_band(0, 1000), 720);
    assert_eq!(clamp_band(1000, 1000), 720);
    assert_eq!(clamp_band(-5, 700), 350);
    assert_eq!(clamp_band(5, 1), 1);
}

fn plan(items: &Vec<FlowItem>, geoms: Vec<SectGeom>) -> Vec<(usize, usize, Option<SectType>, usize)> {
    assert_eq!(page_runs(items, 0).len(), geoms.len());
    resolve_sections(items, 0, &geoms)
        .iter()
        .map(|s| (s.start, s.end, s.break_after, s.leading_pagebreaks))
        .collect()
}

fn wide() -> SectGeom {
    let mut g = geometry();
    g.page_w = 20000;
    g
}

#[test]
fn equal_pages_share_a_section() {
    let items = vec![content(), hard(), content()];
    assert_eq!(plan(&items, vec![geometry(), geometry()]), vec![(0, 3, None, 0)]);
    assert!(same_section(&geometry(), &geometry()));
    assert!(!same_section(&geometry(), &wide()));
}

#[test]
fn changed_pages_start_a_section() {
    let boundary = break_item(true, true, None);
    let items = vec![content(), boundary, boundary, content()];
    assert_eq!(
        plan(&items, vec![geometry(), wide()]),
        vec![(0, 1, None, 0), (3, 4, None, 0)]
    );
    let items = vec![content(), hard(), hard(), hard(), content()];
    assert_eq!(
        plan(&items, vec![geometry(), wide()]),
        vec![(0, 1, None, 0), (4, 5, None, 1)]
    );
    let odd = break_item(false, false, Some(Parity::Odd));
    let items = vec![content(), odd, content()];
    assert_eq!(
        plan(&items, vec![geometry(), geometry()]),
        vec![(0, 1, Some(SectType::OddPage), 0), (2, 3, None, 0)]
    );
    let mut restarted = geometry();
    restarted.page_num_start = Some(1);
    let items = vec![content(), hard(), content()];
    assert_eq!(
        plan(&items, vec![geometry(), restarted]),
        vec![(0, 1, None, 0), (2, 3, None, 0)]
    );
}

#[test]
fn columns_get_a_section_of_their_own() {
    let gutter = Rel { abs: POINT, ratio: 40_000 };
    let columns = item(FlowKind::Columns { uses_table: false, count: 3, gutter });
    let table = item(FlowKind::Columns { uses_table: true, count: 3, gutter });
    let items = vec![content(), columns, content(), table];
    let sections = resolve_sections(&items, 0, &vec![geometry()]);
    let shape: Vec<_> = sections.iter().map(|s| (s.start, s.end, s.break_after)).collect();
    assert_eq!(
        shape,
        vec![
            (0, 1, Some(SectType::Continuous)),
            (1, 2, Some(SectType::Continuous)),
            (2, 4, None)
        ]
    );
    assert_eq!((sections[1].geom.columns, sections[1].geom.col_space), (3, 386));
    let items = vec![columns, hard(), content()];
    let sections = resolve_sections(&items, 0, &vec![geometry(), geometry()]);
    let shape: Vec<_> = sections.iter().map(|s| (s.start, s.end, s.break_after)).collect();
    assert_eq!(shape, vec![(0, 1, Some(SectType::NextPage)), (1, 3, None)]);
}

#[test]
fn sections_of_tags_join_a_neighbor() {
    let boundary = break_item(true, true, None);
    let items = vec![tag_item(1), boundary, content(), boundary, tag_item(2)];
    assert_eq!(plan(&items, vec![geometry(), wide(), geometry()]), vec![(0, 5, None, 0)]);
}

fn section(geom: SectGeom) -> SectionRun {
    SectionRun { geom, start: 0, end: 1, break_after: None, leading_pagebreaks: 0 }
}

#[test]
fn page_colors_do_not_leak() {
    let mut red = geometry();
    red.background_color = Some([255, 0, 0]);
    let mut white = geometry();
    white.background_color = Some([255, 255, 255]);
    let mut sections = vec![section(red), section(red)];
    assert!(!normalize_backgrounds(&mut sections, ContentId(9)));
    let mut sections = vec![section(red), section(white), section(geometry())];
    assert!(normalize_backgrounds(&mut sections, ContentId(9)));
    let seen: Vec<_> = sections.iter().map(|s| (s.geom.background_color, s.geom.header)).collect();
    assert_eq!(
        seen,
        vec![(Some([255, 0, 0]), None), (None, Some(ContentId(9))), (None, None)]
    );
    let settings = page_settings(&sections, &wide(), true);
    assert_eq!((settings.background_color, settings.numberings.len()), (None, 3));
    let settings = page_settings(&vec![], &red, false);
    assert_eq!((settings.background_color, settings.numberings.len()), (Some([255, 0, 0]), 1));
}

fn lowered(blocks: Vec<Block>) -> SectionContent {
    SectionContent { blocks, sect: SectPr::default(), headers: vec![], footers: vec![] }
}

#[test]
fn sections_are_joined_by_breaks() {
    let mut first = section(geometry());
    first.break_after = Some(SectType::EvenPage);
    let mut second = section(wide());
    second.leading_pagebreaks = 1;
    let whole = assemble_sections(
        &vec![first, second],
        vec![lowered(vec![para("a")]), lowered(vec![para("b")])],
    );
    assert_eq!(whole.blocks.len(), 4);
    assert!(matches!(&whole.blocks[1], Block::SectionBreak(s) if s.sect_type.is_none()));
    assert!(matches!(&whole.blocks[2], Block::Para(p)
        if matches!(p.content[0], ParaChild::Run(Run::PageBreak))));
    assert_eq!(whole.sect.sect_type, Some(SectType::EvenPage));
    assert!(!even_and_odd_headers(&whole.sect, &whole.blocks));
    let mut sect = SectPr::default();
    sect.footers.push(HdrFtrRef { kind: "even", rel: "rId1".into() });
    assert!(section_uses_even_furniture(&sect));
    assert!(even_and_odd_headers(&SectPr::default(), &vec![Block::SectionBreak(sect)]));
}

#[test]
fn one_section_is_lowered_whole() {
    let mut only = section(wide());
    only.start = 3;
    only.leading_pagebreaks = 2;
    let steps = lowering_steps(&vec![only], &geometry(), 9);
    assert_eq!((steps.len(), steps[0].start, steps[0].end), (1, 0, 9));
    assert_eq!(steps[0].geom.page_w, 20000);
    let whole = assemble_sections(&vec![only], vec![lowered(vec![para("a")])]);
    assert_eq!(whole.blocks.len(), 1);
    let steps = lowering_steps(&vec![], &geometry(), 9);
    assert_eq!((steps[0].end, steps[0].geom.page_w), (9, 12000));
    let steps = lowering_steps(&vec![only, section(geometry())], &geometry(), 9);
    assert_eq!((steps.len(), steps[0].start, steps[1].end), (2, 3, 1));
}

#[test]
fn a_failed_section_keeps_its_geometry() {
    let mut ctx = DocxCtx::new();
    ctx.add_header_rel("header1.xml");
    let mark = ctx.doc_rels.savepoint();
    ctx.add_header_rel("header2.xml");
    let (sect, decision) = section_fallback(&mut ctx, mark, &geometry());
    assert_eq!((sect.page_w, ctx.doc_rels.entries.len()), (12000, 1));
    assert_eq!(decision.reason, DecisionReason::SectionGeometryFallback);
}

fn furniture(signature: &str, blocks: Vec<Block>) -> LoweredFurniture {
    LoweredFurniture { blocks, rels: Rels::new(), signature: signature.into(), emit_empty: true }
}

fn samples(s: [&str; 4]) -> Option<FurnitureSamples> {
    Some(FurnitureSamples {
        even: furniture(s[0], vec![]),
        odd: furniture(s[1], vec![]),
        even_again: furniture(s[2], vec![]),
        odd_again: furniture(s[3], vec![]),
    })
}

fn kinds(plan: FurniturePlan) -> Option<(bool, Vec<&'static str>)> {
    match plan {
        FurniturePlan::Exact { title_page, refs } => {
            Some((title_page, refs.iter().map(|r| r.kind).collect()))
        }
        FurniturePlan::Sampled { .. } => None,
    }
}

#[test]
fn furniture_is_told_apart_by_page() {
    let plan = |first: &str, s| kinds(preflight_furniture(furniture(first, vec![]), s));
    assert_eq!(plan("a", None), Some((false, vec!["default"])));
    assert_eq!(plan("a", samples(["a", "a", "a", "a"])), Some((false, vec!["default"])));
    assert_eq!(plan("x", samples(["a", "a", "a", "a"])), Some((true, vec!["first", "default"])));
    assert_eq!(plan("b", samples(["a", "b", "a", "b"])), Some((false, vec!["even", "default"])));
    assert_eq!(
        plan("x", samples(["a", "b", "a", "b"])),
        Some((true, vec!["first", "even", "default"]))
    );
    assert_eq!(plan("a", samples(["1", "2", "3", "4"])), None);
}

fn sized(half_pt: u32) -> Block {
    let mut props = RunProps::default();
    props.size_half_pt = Some(half_pt);
    Block::Para(para_of(vec![ParaChild::Run(Run::Text { props, text: "x".into() })]))
}

fn rows(heights: &[Option<i32>]) -> Block {
    let rows = heights
        .iter()
        .map(|h| Row {
            header: false,
            cant_split: false,
            height: h.map(|val| RowHeight { val, exact: false }),
            cells: vec![],
        })
        .collect();
    Block::Table(Tbl { props: TblProps::default(), grid: vec![], rows })
}

#[test]
fn furniture_heights_are_told_from_blocks() {
    assert_eq!(single_line_furniture_height(&vec![Block::Tag(start(1)), sized(20)]), Some(200));
    assert_eq!(single_line_furniture_height(&vec![sized(20), sized(20)]), None);
    assert_eq!(single_line_furniture_height(&vec![para("x")]), None);
    assert_eq!(furniture_content_height(&vec![rows(&[Some(30), Some(40)])]), Some(70));
    assert_eq!(furniture_content_height(&vec![rows(&[Some(30), None])]), None);
    assert_eq!(furniture_content_height(&vec![rows(&[Some(30)]), sized(20)]), Some(230));
    let mut sect = SectPr::default();
    adjust_furniture_band(&mut sect, FurnitureSlot::Header, 200);
    assert_eq!((sect.header, sect.footer), (520, 720));
}

#[test]
fn furniture_becomes_parts() {
    let mut ctx = DocxCtx::new();
    let mut sect = start_section(&geometry(), None);
    assert!(sect.pg_num.is_none());
    let mut parts = Vec::new();
    let plan = preflight_furniture(
        furniture("x", vec![Block::Tag(start(4)), sized(20)]),
        samples(["a", "a", "a", "a"]),
    );
    let sampled =
        build_furniture_refs(&mut ctx, &mut sect, &mut parts, FurnitureSlot::Header, plan);
    assert_eq!(sampled, None);
    assert!(sect.title_pg);
    let refs: Vec<_> = sect.headers.iter().map(|r| (r.kind, r.rel.clone())).collect();
    assert_eq!(refs, vec![("first", "rId1".into()), ("default", "rId2".into())]);
    let names: Vec<_> = parts.iter().map(|p| p.part_name.clone()).collect();
    assert_eq!(names, vec!["header1.xml", "header2.xml"]);
    assert!(ctx.real_alias_locations.contains(&4));
    assert_eq!(ctx.deferred_tags.len(), 1);
    let plan = preflight_furniture(furniture("a", vec![para("hello")]), samples(["1", "2", "3", "4"]));
    let sampled =
        build_furniture_refs(&mut ctx, &mut sect, &mut parts, FurnitureSlot::Footer, plan);
    assert_eq!(sampled, Some(5));
    assert_eq!(sect.footers[0].kind, "default");
    assert!(!has_header_furniture(&geometry()));
}

fn pattern(pieces: &[(&str, &str, &str)], suffix: &str) -> PageNumbering {
    PageNumbering::Pattern(NumberPattern {
        pieces: pieces
            .iter()
            .map(|(p, one, four)| NumberPiece {
                prefix: p.to_string(),
                one: one.to_string(),
                four: four.to_string(),
            })
            .collect(),
        suffix: suffix.into(),
    })
}

#[test]
fn numberings_have_a_format() {
    let fmt = |one, four| numbering_fmt(&pattern(&[("", one, four)], ""));
    assert_eq!(fmt("1", "4"), "decimal");
    assert_eq!(fmt("01", "04"), "decimalZero");
    assert_eq!(fmt("a)", "d)"), "lowerLetter");
    assert_eq!(fmt("A", "D"), "upperLetter");
    assert_eq!(fmt("i.", "iv."), "lowerRoman");
    assert_eq!(fmt("I \u{2014}", "IV \u{2014}"), "upperRoman");
    assert_eq!(fmt("a\u{e9}", "d\u{e9}"), "decimal");
    assert_eq!(numbering_fmt(&PageNumbering::Function), "decimal");
    let two = pattern(&[("", "1", "4"), (" of ", "i", "iv")], "");
    assert_eq!(numbering_fmt_kth(&two, 1), "lowerRoman");
    assert_eq!(numbering_fmt_kth(&two, 2), "decimal");
    assert_eq!(field_format_switch("upperRoman"), Some("ROMAN"));
    assert_eq!(field_format_switch("decimal"), None);
}

fn fields(block: &Block) -> Vec<String> {
    match block {
        Block::Para(p) => p
            .content
            .iter()
            .map(|c| match c {
                ParaChild::Run(Run::Text { text, .. }) => text.clone(),
                ParaChild::Run(Run::Field(f)) => format!("{{{}}}", f.instr),
                _ => "?".into(),
            })
            .collect(),
        _ => panic!("a paragraph"),
    }
}

#[test]
fn page_numbers_are_fields() {
    let two = pattern(&[("- ", "1", "4"), (" of ", "i", "iv")], " -");
    assert_eq!(
        fields(&page_number_para(Some(&two), "Footer", None)),
        vec!["- ", "{ PAGE }", " of ", "{ NUMPAGES \\* roman }", " -"]
    );
    let one = pattern(&[("- ", "i", "iv")], " -");
    assert_eq!(fields(&page_number_para(Some(&one), "Footer", None)), vec!["{ PAGE }"]);
    let mut g = geometry();
    g.numbering = Some(NumberingId(1));
    g.page_num_start = Some(3);
    let mut sect = start_section(&g, Some(&one));
    assert_eq!(sect.pg_num.map(|p| (p.fmt, p.start)), Some(("lowerRoman", Some(3))));
    let mut ctx = DocxCtx::new();
    let (mut headers, mut footers) = (Vec::new(), Vec::new());
    add_page_number(&mut ctx, &mut sect, &mut headers, &mut footers, &g, Some(&one));
    assert_eq!((headers.len(), footers.len()), (0, 1));
    match &footers[0].blocks[0] {
        Block::Para(p) => {
            assert_eq!((p.props.style.as_deref(), p.props.jc), (Some("Footer"), Some(Jc::Center)));
            assert!(para_has_page_field(p));
        }
        _ => panic!("a paragraph"),
    }
    g.number_in_header = true;
    g.header_suppressed = true;
    add_page_number(&mut ctx, &mut sect, &mut headers, &mut footers, &g, Some(&one));
    assert_eq!((headers.len(), footers.len()), (0, 1));
}

#[test]
fn furniture_is_lowered_in_its_scope() {
    let mut ctx = DocxCtx::new();
    let mut g = geometry();
    g.columns = 2;
    set_ctx_geometry(&mut ctx, &g);
    assert_eq!(ctx.page_content_width_dxa(), 12000 - 2 * 1429);
    assert_eq!(ctx.available_width_dxa(), (12000 - 2 * 1429 - 480) / 2);
    assert_eq!(ctx.raster_height, 840 * POINT);
    g.margin_top = 10;
    ctx.line_numbering_active = true;
    let saved = begin_furniture(&mut ctx, FurnitureSlot::Header, &g);
    assert_eq!((ctx.raster_height, ctx.line_numbering_active), (6 * POINT, false));
    ctx.page_counter_paragraph_alignment = Some(Jc::End);
    assert_eq!(end_furniture(&mut ctx, saved), Some(Jc::End));
    assert_eq!((ctx.raster_height, ctx.line_numbering_active), (840 * POINT, true));
    assert_eq!(furniture_horizontal_alignment(Some(HAlign::Right)), Some(Jc::End));
    let number = page_number_para(None, "Footer", None);
    let mut blocks = vec![para("x"), number];
    if let Block::Para(p) = &mut blocks[1] {
        p.props.jc = None;
    }
    align_furniture(&mut blocks, None, Some(Jc::End));
    let jcs: Vec<_> = blocks
        .iter()
        .map(|b| match b {
            Block::Para(p) => p.props.jc,
            _ => None,
        })
        .collect();
    assert_eq!(jcs, vec![None, Some(Jc::End)]);
    assert_eq!(furniture_blocks(Some(para("b")), vec![para("c")], None).len(), 2);
    g.background_color = Some([1, 2, 3]);
    assert_eq!(page_fill(FurnitureSlot::Header, false, &g), Some([1, 2, 3]));
    assert_eq!(page_fill(FurnitureSlot::Header, true, &g), None);
    assert_eq!(page_fill(FurnitureSlot::Footer, false, &g), None);
}

fn element(kind: Kind, chars: usize, children: Vec<Content>) -> Content {
    Content {
        kind,
        span: Span(kind_span(kind)),
        location: None,
        labelled: false,
        text_chars: chars,
        children,
    }
}

fn kind_span(kind: Kind) -> u64 {
    if kind == Kind::Context { 7 } else { 3 }
}

#[test]
fn sampled_furniture_is_reported() {
    assert_eq!(attribute_sampled_chars(&vec![3, 0, 0], 10), vec![3, 7, 0]);
    let fixed = element(Kind::Text { blank: false }, 5, vec![]);
    let varied = element(Kind::Context, 0, vec![]);
    let partly = element(
        Kind::Sequence,
        0,
        vec![element(Kind::Context, 0, vec![]), element(Kind::Text { blank: false }, 4, vec![])],
    );
    let source =
        FurnitureSource { content: Some(&partly), background: Some(&fixed), foreground: None };
    assert!(source.context_sensitive());
    let both = FurnitureSource { foreground: Some(&varied), ..source };
    let report = record_sampled_furniture(FurnitureSlot::Footer, &both, 10);
    let chars: Vec<_> = report.decisions.iter().map(|d| d.affected_text_chars).collect();
    assert_eq!((chars, report.warning), (vec![4, 6], Some((Span(3), "footer"))));
    let still = FurnitureSource { content: None, background: Some(&fixed), foreground: None };
    assert!(!still.context_sensitive());
    let report = record_sampled_furniture(FurnitureSlot::Header, &still, 10);
    assert!(report.decisions.is_empty() && report.warning.is_none());
    assert!(!lowered_furniture(vec![], Rels::new(), &still).emit_empty);
    let made = lowered_furniture(vec![para("a")], Rels::new(), &source);
    assert_eq!((made.emit_empty, made.signature), (true, furniture_signature(&vec![para("a")])));
}

#[test]
fn page_drawings_cover_the_page() {
    let mut ctx = DocxCtx::new();
    let g = geometry();
    let blocks = vec![
        dense_visual_page_block(&mut ctx, "rId1".into(), &g),
        page_overlay_block(&mut ctx, "rId2".into(), "a\nb", false, &g),
        page_overlay_block(&mut ctx, "rId3".into(), "a", true, &g),
        solid_page_fill_block(&mut ctx, [1, 2, 3], &g),
    ];
    let facts = drawing_inventory(&blocks, &vec![], &vec![], &vec![]);
    let seen: Vec<_> =
        facts.iter().map(|d| (d.name.as_str(), d.alt.as_deref(), d.decorative)).collect();
    assert_eq!(
        seen,
        vec![
            ("Dense visual page 1", None, false),
            ("Foreground 2", Some("a b"), false),
            ("Background 3", None, true),
            ("Page Color 4", None, true)
        ]
    );
}

#[test]
fn tags_are_positioned_by_breaks() {
    let body = vec![
        Block::Tag(start(1)),
        Block::WeakPageBreak,
        Block::Para(para_of(vec![ParaChild::Tag(start(2)), ParaChild::Run(run("a"))])),
        Block::Tag(start(3)),
        Block::WeakPageBreak,
        Block::Tag(start(4)),
        Block::Para(para_of(vec![
            ParaChild::Run(run("b")),
            ParaChild::Run(Run::PageBreak),
            ParaChild::Tag(start(5)),
        ])),
        Block::SectionBreak(SectPr::default()),
        Block::Tag(start(6)),
    ];
    let notes = vec![Footnote { id: 1, blocks: vec![Block::Tag(start(7))] }];
    let walk: TagWalk = position_tags(&body, &notes, &vec![start(8)]);
    let at: Vec<_> = walk.out.iter().map(|p| (p.position.page, p.position.block)).collect();
    assert_eq!(at, vec![(1, 0), (1, 0), (1, 1), (2, 0), (3, 0), (4, 0), (4, 0), (4, 1)]);
    assert_eq!(walk.map.get(&2), Some(&(1, 0)));
    assert_eq!(walk.map.get(&6), Some(&(4, 1)));
    assert_eq!(walk.map.get(&7), None);
    let mut tags = Vec::new();
    collect_tags(&body, &mut tags);
    assert_eq!(tags, (1..=6).map(start).collect::<Vec<_>>());
    assert_eq!(synthetic_position(0, 3).page, 1);
}

#[test]
fn weak_breaks_need_content_on_the_page() {
    let hard = || Block::Para(para_of(vec![ParaChild::Run(Run::PageBreak)]));
    let text = || Block::Para(para_of(vec![ParaChild::Run(run("a"))]));
    let page = |body: Vec<Block>| position_tags(&body, &vec![], &vec![]).page;
    assert_eq!(page(vec![text(), hard(), Block::WeakPageBreak]), 2);
    assert_eq!(page(vec![text(), hard(), hard()]), 3);
    assert_eq!(page(vec![hard(), text()]), 1);
    assert_eq!(page(vec![text(), Block::WeakPageBreak, Block::WeakPageBreak]), 2);
    let sect = || Block::SectionBreak(SectPr::default());
    assert_eq!(page(vec![text(), sect(), Block::WeakPageBreak]), 2);
    assert_eq!(page(vec![text(), hard(), text(), Block::WeakPageBreak]), 3);
    let walk = position_tags(&vec![sect(), text(), sect()], &vec![], &vec![]);
    assert_eq!(walk.section, 2);
    let walk = position_tags(
        &vec![Block::Tag(start(1)), text(), sect(), Block::Tag(start(1))],
        &vec![],
        &vec![],
    );
    assert_eq!(walk.map.get(&1), Some(&(1, 0)));
}

fn origin(id: u64, span: u64, kind: ReviewCandidateKind) -> Option<ReviewOrigin> {
    Some(ReviewOrigin { join_id: ReviewJoinId(id), span: Span(span), kind })
}

fn reviewed(id: u64, span: u64, kind: ReviewCandidateKind, s: &str) -> Block {
    let mut p = para_of(vec![]);
    p.props.review_origin = origin(id, span, kind);
    let mut props = RunProps::default();
    props.review_origin = origin(id + 100, span + 100, ReviewCandidateKind::InlineText);
    p.content = vec![ParaChild::Run(Run::Text { props, text: s.into() })];
    Block::Para(p)
}

#[test]
fn candidates_name_one_place() {
    let body = vec![
        reviewed(1, 10, ReviewCandidateKind::Paragraph, "a"),
        reviewed(2, 20, ReviewCandidateKind::Paragraph, "b"),
        reviewed(3, 20, ReviewCandidateKind::Paragraph, "c"),
        reviewed(4, 30, ReviewCandidateKind::Heading, "d"),
        reviewed(5, 40, ReviewCandidateKind::Heading, "e"),
        reviewed(6, 0, ReviewCandidateKind::Paragraph, "f"),
    ];
    let nodes = vec![SnapshotNode {
        span: Span(40),
        element: "heading".into(),
        semantic_occurrences: 1,
        paged_positions: 1,
    }];
    let found = collect_review_candidates(&body, &vec![], &vec![], &vec![], &nodes);
    let seen: Vec<_> = found.iter().map(|c| (c.join_id.0, c.baseline.as_str())).collect();
    assert_eq!(seen, vec![(1, "a"), (5, "e")]);
    let tab = para_of(vec![ParaChild::Run(run("x")), ParaChild::Run(Run::Tab)]);
    assert_eq!(plain_review_text(&tab).as_deref(), Some("x"));
    assert_eq!(plain_review_text(&para_of(vec![ParaChild::Run(Run::PageBreak)])), None);
    assert_eq!(plain_review_text(&para_of(vec![])), None);
}

#[test]
fn inventories_walk_the_document() {
    let field = Run::Field(Field {
        instr: " PAGE ".into(),
        result: vec![run("12")],
        mode: FieldMode::Static,
        display: FieldDisplay::Hidden,
        cache_status: FieldCacheStatus::Resolved,
    });
    let body = vec![Block::Para(para_of(vec![ParaChild::Run(field), ParaChild::Run(run("abc"))]))];
    let facts = dynamic_field_inventory(&body, &vec![], &vec![], &vec![]);
    assert_eq!(facts.len(), 1);
    assert_eq!((facts[0].owner, facts[0].visibility), (FieldOwner::Typst, FieldVisibility::Hidden));
    assert_eq!(blocks_text_chars(&body), 5);
    let mut props = RunProps::default();
    props.font = Some("Mono".into());
    let notes = vec![Footnote {
        id: 1,
        blocks: vec![Block::Para(para_of(vec![ParaChild::Run(Run::Text {
            props,
            text: "n".into(),
        })]))],
    }];
    let mut defaults = TextDefaults::default();
    defaults.font = Some("Serif".into());
    let fonts = font_inventory(&defaults, &vec![], true, &body, &vec![], &vec![], &notes);
    assert_eq!(fonts, vec!["Serif", "Cambria Math", "Mono"]);
}

#[test]
fn signatures_add_and_ignore_cached_text() {
    let blocks = || vec![para("a"), rows(&[Some(1)]), Block::WeakPageBreak, para("b")];
    let whole = furniture_signature(&blocks());
    for k in 0..4 {
        let mut first = blocks();
        let second = first.split_off(k);
        assert_eq!(furniture_signature(&first) + &furniture_signature(&second), whole);
    }
    assert_eq!(furniture_signature(&vec![]), "");
    let field = |mode: FieldMode, text: &str, size: u32, color: u8| {
        let mut props = RunProps::default();
        props.size_half_pt = Some(size);
        props.color = Some([color, 0, 0]);
        let result = vec![Run::Text { props, text: text.into() }];
        furniture_signature(&vec![Block::Para(para_of(vec![ParaChild::Run(Run::Field(Field {
            instr: " PAGE ".into(),
            result,
            mode,
            display: FieldDisplay::Visible,
            cache_status: FieldCacheStatus::Resolved,
        }))]))])
    };
    let live = FieldMode::Live;
    assert_eq!(field(live, "1", 20, 0), field(live, "22", 20, 0));
    assert_ne!(field(live, "1", 20, 0), field(live, "1", 2, 0));
    assert_ne!(field(live, "1", 20, 0), field(live, "1", 20, 9));
    assert_ne!(field(FieldMode::Static, "1", 20, 0), field(FieldMode::Static, "22", 20, 0));
}

/// A table whose cell holds a text box with a linked field.
fn nested(id: u32, marks: bool, mode: FieldMode, text: &str) -> Vec<Block> {
    let mut inner = vec![ParaChild::Hyperlink {
        rel: Some(format!("rId{id}")),
        anchor: None,
        runs: vec![Run::Field(Field {
            instr: " PAGE ".into(),
            result: vec![run(text)],
            mode,
            display: FieldDisplay::Visible,
            cache_status: FieldCacheStatus::Resolved,
        })],
    }];
    if marks {
        inner.insert(0, ParaChild::BookmarkStart { id, name: format!("_Ref{id}") });
        inner.push(ParaChild::BookmarkEnd { id });
        inner.push(ParaChild::Tag(start(id as u128)));
    }
    let mut boxed = vec![Block::Para(para_of(inner))];
    if marks {
        boxed.insert(0, Block::Tag(start(3)));
    }
    let drawing = Drawing {
        rel: format!("rId{id}"),
        svg_rel: None,
        compatibility_split_ids: None,
        w_emu: 1,
        h_emu: 1,
        source_offset_emu: [0, 0],
        alt: None,
        decorative: false,
        docpr_id: id,
        name: format!("Shape {id}"),
        anchor: None,
        shape: Some(ShapeSpec {
            geom: ShapeGeom::Rect,
            fill: None,
            stroke: None,
            txbx: Some(TextBox {
                ins: [0, 0, 0, 0],
                blocks: boxed,
                wrap: TextBoxWrap::Square,
                autofit: false,
            }),
        }),
        group: None,
        pic_clip: PicClip::default(),
    };
    let mut held = vec![Block::Para(para_of(vec![ParaChild::Run(Run::Drawing(drawing))]))];
    if marks {
        held.push(Block::Tag(start(4)));
    }
    let cell = Cell {
        w_dxa: None,
        grid_span: 1,
        v_merge: None,
        borders: CellBorders::default(),
        shd_fill: None,
        margins: CellMargins::default(),
        valign: None,
        blocks: held,
    };
    let row = Row { header: false, cant_split: false, height: None, cells: vec![cell] };
    vec![Block::Table(Tbl { props: TblProps::default(), grid: vec![], rows: vec![row] })]
}

#[test]
fn nested_marks_leave_no_trace() {
    let live = FieldMode::Live;
    let plain = furniture_signature(&nested(1, false, live, "1"));
    assert_eq!(furniture_signature(&nested(1, true, live, "1")), plain);
    assert_eq!(furniture_signature(&nested(2, true, live, "22")), plain);
    let fixed = furniture_signature(&nested(1, false, FieldMode::Static, "1"));
    assert_eq!(furniture_signature(&nested(2, true, FieldMode::Static, "1")), fixed);
    assert_ne!(furniture_signature(&nested(1, false, FieldMode::Static, "22")), fixed);
}

#[test]
fn another_font_gives_another_signature() {
    let run = |font: Option<&str>, text: &str| {
        let mut props = RunProps::default();
        props.font = font.map(|f| f.into());
        Run::Text { props, text: text.into() }
    };
    let live = |font: Option<&str>, text: &str| {
        furniture_signature(&vec![Block::Para(para_of(vec![ParaChild::Run(Run::Field(Field {
            instr: " PAGE ".into(),
            result: vec![run(None, "p. "), run(font, text)],
            mode: FieldMode::Live,
            display: FieldDisplay::Visible,
            cache_status: FieldCacheStatus::Resolved,
        }))]))])
    };
    let plain = |font: Option<&str>, text: &str| {
        furniture_signature(&vec![Block::Para(para_of(vec![ParaChild::Run(run(font, text))]))])
    };
    let fonts = [None, Some(""), Some("Serif"), Some("Se\"rif"), Some("Se\\\"rif"), Some("Se\nrif")];
    for (i, a) in fonts.iter().enumerate() {
        for (k, b) in fonts.iter().enumerate() {
            assert_eq!(live(*a, "1") == live(*b, "22"), i == k);
            assert_eq!(plain(*a, "1") == plain(*b, "1"), i == k);
        }
    }
    assert!(plain(Some("Se\"rif"), "1").contains("font=Some(\"Se\\\"rif\");"));
}

#[test]
fn signatures_tell_furniture_apart() {
    let sig = |b: Block| furniture_signature(&vec![b]);
    assert_eq!(sig(Block::WeakPageBreak), "weakbr;");
    assert_eq!(sig(Block::Tag(start(1))), sig(Block::Tag(start(2))));
    assert_eq!(furniture_signature(&vec![Block::Tag(start(1)), para("a")]), sig(para("a")));
    assert_ne!(sig(para("a")), sig(para("b")));
    let mut bold = RunProps::default();
    bold.bold = true;
    let strong = para_of(vec![ParaChild::Run(Run::Text { props: bold, text: "a".into() })]);
    assert_ne!(sig(para("a")), sig(Block::Para(strong)));
    assert_ne!(sig(rows(&[Some(1)])), sig(rows(&[Some(2)])));
}

fn heading(level: u8, bold: bool, before: i32) -> Block {
    let mut props = RunProps::default();
    props.bold = bold;
    props.size_half_pt = Some(32);
    let mut p = para_of(vec![ParaChild::Run(Run::Text { props, text: "h".into() })]);
    p.props.style = Some(format!("Heading{level}"));
    p.props.spacing = Some(Spacing { before: Some(before), ..Spacing::default() });
    Block::Para(p)
}

fn sample(level: u8, bold: bool) -> HeadingStyleSample {
    let mut rpr = RunProps::default();
    rpr.bold = bold;
    rpr.size_half_pt = Some(32);
    HeadingStyleSample { level, rpr }
}

#[test]
fn heading_styles_take_what_is_common() {
    let body = vec![heading(1, true, 200), heading(1, true, 200), heading(2, true, 1)];
    let samples = vec![sample(1, true), sample(1, true), sample(1, false), sample(2, true)];
    let mut styles = derive_heading_styles(2, &samples, &body);
    assert_eq!(styles.len(), 2);
    assert!(styles[0].rpr.bold);
    assert_eq!(styles[0].rpr.size_half_pt, Some(32));
    assert_eq!(styles[0].spacing.and_then(|s| s.before), Some(200));
    let mixed = vec![heading(1, true, 200), heading(1, false, 300)];
    assert_eq!(derive_heading_styles(1, &samples, &mixed)[0].spacing, None);
    demote_unrepresentable_heading_booleans(&mut styles, &mixed);
    assert!(!styles[0].rpr.bold);
}

fn voted(font: &str, color: [u8; 3], s: &str) -> Block {
    let mut props = RunProps::default();
    props.font = Some(font.into());
    props.size_half_pt = Some(20);
    props.color = Some(color);
    props.lang = Some("en".into());
    Block::Para(para_of(vec![ParaChild::Run(Run::Text { props, text: s.into() })]))
}

#[test]
fn defaults_are_voted_by_text() {
    let mut body = vec![voted("A", [1, 1, 1], "long text"), voted("B", [2, 2, 2], "short")];
    let d = vote_text_defaults(&body, &TextDefaults::default());
    assert_eq!((d.font.as_deref(), d.size_half_pt), (Some("A"), 20));
    assert_eq!((d.color, d.lang.as_deref()), (Some([1, 1, 1]), Some("en")));
    apply_style_inheritance(&d, &vec![], &mut body);
    let left: Vec<_> = body
        .iter()
        .map(|b| match b {
            Block::Para(p) => match &p.content[0] {
                ParaChild::Run(Run::Text { props, .. }) => {
                    (props.font.clone(), props.size_half_pt, props.color)
                }
                _ => panic!("text"),
            },
            _ => panic!("a paragraph"),
        })
        .collect();
    assert_eq!(left[0], (None, None, None));
    assert_eq!(left[1], (Some("B".into()), None, Some([2, 2, 2])));
    let tie = vec![voted("A", [1, 1, 1], "same"), voted("B", [2, 2, 2], "size")];
    let d = vote_text_defaults(&tie, &TextDefaults::default());
    assert_eq!((d.font, d.color, d.size_half_pt), (None, None, 20));
}

#[test]
fn styles_are_finished_in_order() {
    let mut parts = Parts {
        body: vec![heading(1, true, 200), voted("A", [1, 1, 1], "text")],
        footnotes: vec![],
        headers: vec![],
        footers: vec![],
    };
    let mut numbering = NumberingTable::default();
    let samples = vec![sample(1, true)];
    let levels: Vec<ListLevel> = (0..9)
        .map(|_| ListLevel {
            num_fmt: NumFmt::Decimal,
            lvl_text: "%1".into(),
            start: 1,
            ind_left: 0,
            ind_hanging: 0,
            bullet_font: None,
            pstyle: None,
        })
        .collect();
    let done = finish_styles(
        &mut parts,
        &mut numbering,
        Some(&levels),
        1,
        &samples,
        &TextDefaults::default(),
    );
    assert_eq!(done.text_defaults.font.as_deref(), Some("A"));
    assert!(done.heading_styles[0].rpr.bold);
    assert!(matches!(done.numbering, Outcome::Unnumbered));
    assert!(numbering.nums.is_empty());
}

#[test]
fn a_part_owns_its_relationships() {
    let mut rels = Rels::new();
    rels.add_rel("t", "a", RelMode::Internal);
    let mut f = furniture("s", vec![]);
    f.rels = rels;
    let mut ctx = DocxCtx::new();
    let mut sect = SectPr::default();
    let mut parts = Vec::new();
    let plan = preflight_furniture(f, None);
    build_furniture_refs(&mut ctx, &mut sect, &mut parts, FurnitureSlot::Footer, plan);
    assert_eq!(parts[0].rels.entries.len(), 1);
    assert_eq!((ctx.doc_rels.entries.len(), parts[0].part_name.as_str()), (1, "footer1.xml"));
}
