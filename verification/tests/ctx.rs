//! The state that lowering accumulates.

use typst_docx::content::{Content, Kind};
use typst_docx::ctx::bookmarks::LocatedNode;
use typst_docx::ctx::children::{
    ChildRoute, Children, Destination, merge_hyperlinks, route_child,
};
use typst_docx::ctx::fonts::{Fallback, Family, split_by_font_coverage, unavailable_families};
use typst_docx::ctx::format::{
    DashLength, Deco, FixedAlignment, HighlightPaint, ParStyle, TextPaint, TextStyle,
    UnderlineStroke, apply_highlight, classify_dash, consecutive_first_line_indent, highlight_rgb,
    resolve_par_jc, text_frame_height, underline_from_stroke, word_highlight_name,
    word_paragraph_boundary_spacing,
};
use typst_docx::ctx::inline::{
    HAmount, InlineDeclined, InlineFrame, InlineRoute, LinkKind, TextItem, Wrapper, framed_props,
    route_inline,
};
use typst_docx::ctx::outcome::{
    link_report, rasterize_fallback, record_content_drop, report_unavailable, resolved_plain_text,
};
use typst_docx::ctx::scope::{RawNode, emit_rasterized_figure_seqs};
use typst_docx::ctx::state::{DocxCtx, RawRange};
use typst_docx::dom::{
    BreakKind, Field, FieldDisplay, Jc, ListLevel, ListSpec, Location, MultiLevelType, NumFmt,
    ParaBorder, ParaChild, Run, RunProps, Span, Tag, VertAlign,
};
use typst_docx::length::{POINT, Rel};
use typst_docx::report::{DecisionReason, LossSet, Representation};

fn loc(n: u128) -> Location {
    Location(n)
}

fn text(s: &str) -> Run {
    Run::Text { props: RunProps::default(), text: s.into() }
}

fn texts(runs: &[Run]) -> Vec<&str> {
    runs.iter()
        .map(|r| match r {
            Run::Text { text, .. } => text.as_str(),
            _ => "-",
        })
        .collect()
}

fn field(run: &Run) -> &Field {
    match run {
        Run::Field(f) => f,
        _ => panic!("a field"),
    }
}

#[test]
fn a_new_state_holds_nothing() {
    let mut ctx = DocxCtx::new();
    assert!(ctx.footnotes.is_empty() && ctx.footnote_ids.is_empty());
    assert!(ctx.comments.is_empty() && ctx.open_comments.is_empty());
    assert!(ctx.snapshot_bookmark_names.is_empty() && ctx.number_bookmarks.is_empty());
    assert!(ctx.emitted_bookmarks.is_empty() && ctx.emitted_number_bookmarks.is_empty());
    assert!(ctx.page_bookmarks.is_empty() && ctx.real_alias_locations.is_empty());
    assert!(ctx.bookmarks.by_location.is_empty() && ctx.bookmarks.pages_by_location.is_empty());
    assert!(ctx.deferred_tags.is_empty() && ctx.raw_ranges.is_empty());
    assert!(ctx.heading_style_samples.is_empty() && ctx.current_heading_numbers.is_empty());
    assert!(ctx.toc_headings.is_empty() && ctx.toc_figures.is_empty());
    assert_eq!((ctx.last_char, ctx.page_counter_paragraph_alignment), (None, None));
    assert!(!ctx.line_numbering_active && !ctx.suppress_text_box);
    assert!(!ctx.cell_owns_inline_block_geometry && !ctx.uses_math);
    let emitted: Vec<bool> =
        [7, 8, 7, 9, 8].iter().map(|n| ctx.bookmark_for_emission(loc(*n)).is_some()).collect();
    assert_eq!(emitted, vec![true, true, false, true, false]);
}

#[test]
fn what_is_known_needs_no_identifier() {
    let mut ctx = DocxCtx::new();
    assert_eq!(ctx.add_bookmark(loc(5)), (1, "_Ref1".into()));
    assert_eq!(ctx.add_number_bookmark(loc(5)), (2, "_Ref1Number".into()));
    assert_eq!(ctx.page_bookmark_for_emission(loc(6), 2), Some((3, "_TypstPage2".into())));
    assert_eq!(ctx.add_footnote(7, vec![]), (1, 4, "_FootnoteRef1".into(), true));
    assert_eq!(ctx.register_list(list(1, false)), 1);
    ctx.next_bookmark_id = u32::MAX;
    ctx.next_footnote_id = i32::MAX;
    ctx.next_num_id = u32::MAX;
    assert_eq!(ctx.add_bookmark(loc(5)), (1, "_Ref1".into()));
    assert_eq!(ctx.bookmark_for_emission(loc(5)), Some((1, "_Ref1".into())));
    assert_eq!(ctx.add_number_bookmark(loc(5)), (2, "_Ref1Number".into()));
    assert_eq!(ctx.page_bookmark_for_emission(loc(8), 2), None);
    assert_eq!(ctx.add_footnote(7, vec![]), (1, 4, "_FootnoteRef1".into(), false));
    assert_eq!(ctx.register_list(list(1, false)), 1);
    let runs = ctx.live_number_reference_runs(loc(9), vec![text("no number ")]);
    assert_eq!(texts(&runs), vec!["no number "]);
}

#[test]
fn identifiers_count_up() {
    let mut ctx = DocxCtx::new();
    assert_eq!([ctx.next_drawing_id(), ctx.next_drawing_id()], [1, 2]);
    assert_eq!([ctx.next_z(), ctx.next_z()], [1, 2]);
    assert_eq!(ctx.next_hdrftr_name(true), "header1.xml");
    assert_eq!(ctx.next_hdrftr_name(false), "footer2.xml");
    assert_eq!(ctx.register_comment(None, None, None, vec![]), 0);
    assert_eq!(ctx.register_comment(Some("A".into()), None, None, vec![]), 1);
}

#[test]
fn a_declaration_has_one_footnote() {
    let mut ctx = DocxCtx::new();
    assert_eq!(ctx.add_footnote(7, vec![]), (1, 1, "_FootnoteRef1".into(), true));
    assert_eq!(ctx.add_footnote(8, vec![]), (2, 2, "_FootnoteRef2".into(), true));
    assert_eq!(ctx.add_footnote(7, vec![]), (1, 1, "_FootnoteRef1".into(), false));
    assert_eq!(ctx.footnotes.len(), 2);
}

#[test]
fn comment_spans_close_once() {
    let mut ctx = DocxCtx::new();
    ctx.open_comment_span("a".into(), 3);
    ctx.open_comment_span("b".into(), 4);
    ctx.open_comment_span("a".into(), 5);
    assert_eq!(ctx.close_comment_span("a"), Some(5));
    assert_eq!(ctx.close_comment_span("a"), None);
    assert_eq!(ctx.close_comment_span("b"), Some(4));
}

#[test]
fn bookmarks_are_stable() {
    let mut ctx = DocxCtx::new();
    let nodes = vec![
        LocatedNode { location: Some(loc(9)), logical_id: 0xab },
        LocatedNode { location: None, logical_id: 1 },
    ];
    ctx.set_snapshot_bookmarks(&nodes);
    let stable = String::from("_Typst000000000000000000000000000000ab");
    assert_eq!(ctx.add_bookmark(loc(5)), (1, "_Ref1".into()));
    assert_eq!(ctx.add_bookmark(loc(9)), (2, stable.clone()));
    assert_eq!(ctx.add_bookmark(loc(5)), (1, "_Ref1".into()));
    assert_eq!(ctx.bookmark_for_emission(loc(9)), Some((2, stable)));
    assert_eq!(ctx.bookmark_for_emission(loc(9)), None);
    assert_eq!(ctx.add_number_bookmark(loc(6)), (4, "_Ref3Number".into()));
    assert_eq!(ctx.add_number_bookmark(loc(6)), (4, "_Ref3Number".into()));
    assert_eq!(ctx.number_bookmark_for_emission(loc(6)), Some((4, "_Ref3Number".into())));
    assert_eq!(ctx.number_bookmark_for_emission(loc(6)), None);
}

#[test]
fn a_page_has_one_anchor() {
    let mut ctx = DocxCtx::new();
    assert_eq!(ctx.page_bookmark(2, None), None);
    assert_eq!(ctx.page_bookmark_for_emission(loc(1), 2), Some((1, "_TypstPage2".into())));
    assert_eq!(ctx.page_bookmark_for_emission(loc(3), 2), None);
    assert_eq!(ctx.page_bookmark(2, None).as_deref(), Some("_TypstPage2"));
    assert_eq!(ctx.page_bookmark(2, Some(loc(1))), None);
    assert_eq!(ctx.page_bookmark(2, Some(loc(3))).as_deref(), Some("_TypstPage2"));
}

#[test]
fn number_references_keep_the_formatting() {
    let mut ctx = DocxCtx::new();
    let bold = |s: &str| {
        let mut props = RunProps::default();
        props.bold = true;
        Run::Text { props, text: s.into() }
    };
    let is_bold = |r: &Run| matches!(r, Run::Text { props, .. } if props.bold);
    let out = ctx.live_number_reference_runs(loc(1), vec![text("Figure "), bold("2.4")]);
    assert_eq!(texts(&out), vec!["Figure ", "-"]);
    assert!(!is_bold(&out[0]));
    assert_eq!(texts(&field(&out[1]).result), vec!["2.4"]);
    assert!(is_bold(&field(&out[1]).result[0]));
    let runs = vec![text("See "), bold("Figure 2"), text(".4"), text("a")];
    let out = ctx.live_number_reference_runs(loc(1), runs);
    assert_eq!(texts(&out), vec!["See ", "Figure ", "-"]);
    assert!(!is_bold(&out[0]) && is_bold(&out[1]));
    let result = &field(&out[2]).result;
    assert_eq!(texts(result), vec!["2", ".4a"]);
    assert!(is_bold(&result[0]) && !is_bold(&result[1]));
}

#[test]
fn number_references_split_behind_the_last_space() {
    let mut ctx = DocxCtx::new();
    let out = ctx.live_number_reference_runs(loc(1), vec![text("Figure\u{a0}"), text("2.4")]);
    assert_eq!(texts(&out), vec!["Figure\u{a0}", "-"]);
    assert_eq!(field(&out[1]).instr, " REF _Ref1Number \\h ");
    assert_eq!(texts(&field(&out[1]).result), vec!["2.4"]);
    let out = ctx.live_number_reference_runs(loc(1), vec![text("2.4")]);
    assert_eq!(texts(&out), vec!["-"]);
    for whole in ["", "Figure "] {
        let out = ctx.live_number_reference_runs(loc(2), vec![text(whole)]);
        assert_eq!(texts(&out), vec![whole]);
    }
}

fn levels(start: u64) -> Vec<ListLevel> {
    vec![ListLevel {
        num_fmt: NumFmt::Decimal,
        lvl_text: "%1.".into(),
        start,
        ind_left: 0,
        ind_hanging: 0,
        bullet_font: None,
        pstyle: None,
    }]
}

fn list(start: u64, restart_at_1: bool) -> ListSpec {
    ListSpec { levels: levels(start), multilevel: MultiLevelType::Multilevel, restart_at_1 }
}

#[test]
fn equal_lists_share_a_number() {
    let mut ctx = DocxCtx::new();
    assert_eq!(ctx.register_list(list(1, false)), 1);
    assert_eq!(ctx.register_list(list(1, false)), 1);
    assert_eq!(ctx.register_list(list(3, false)), 2);
    assert_eq!(ctx.register_list(list(3, true)), 3);
    assert_eq!(ctx.register_list(list(3, true)), 4);
    assert_eq!(ctx.register_list(list(3, false)), 2);
    let overrides: Vec<Option<u64>> =
        ctx.numbering.nums.iter().map(|n| n.start_override).collect();
    assert_eq!(overrides, vec![None, None, Some(3), Some(3)]);
    let abstracts: Vec<u32> = ctx.numbering.nums.iter().map(|n| n.abstract_id).collect();
    assert_eq!(abstracts, vec![0, 1, 1, 1]);
}

#[test]
fn headings_must_agree_on_their_numbering() {
    let mut ctx = DocxCtx::new();
    ctx.note_heading_numbering(Some(levels(1)));
    ctx.note_heading_numbering(Some(levels(1)));
    assert_eq!(ctx.heading_num_levels, Some(Some(levels(1))));
    ctx.note_heading_numbering(None);
    assert_eq!(ctx.heading_num_levels, Some(None));
    ctx.note_heading_numbering(Some(levels(1)));
    assert_eq!(ctx.heading_num_levels, Some(None));
    ctx.note_heading_level(3);
    ctx.note_heading_level(2);
    assert_eq!(ctx.max_heading_level, 3);
}

#[test]
fn a_heading_number_ends_deeper_ones() {
    let mut ctx = DocxCtx::new();
    ctx.note_heading_number(1, "1".into());
    ctx.note_heading_number(2, "1.1".into());
    assert_eq!(ctx.heading_level_for_number("1.1"), Some(2));
    ctx.note_heading_number(1, "2".into());
    assert_eq!(ctx.heading_level_for_number("1.1"), None);
    assert_eq!(ctx.heading_level_for_number("2"), Some(1));
    assert_eq!(ctx.current_heading_numbers, vec![None, Some("2".into()), None]);
}

#[test]
fn heading_styles_own_little() {
    let mut ctx = DocxCtx::new();
    let mut props = RunProps::default();
    props.bold = true;
    props.strike = true;
    props.size_half_pt = Some(28);
    ctx.note_heading_style(2, props);
    let sample = &ctx.heading_style_samples[0];
    assert_eq!((sample.level, sample.rpr.bold, sample.rpr.strike), (2, true, false));
    assert_eq!(sample.rpr.size_half_pt, Some(28));
}

#[test]
fn parts_keep_their_relationships() {
    let mut ctx = DocxCtx::new();
    assert_eq!(ctx.add_image("word/media/image1.png"), "rId1");
    assert_eq!(ctx.add_image("media/image1.png"), "rId1");
    let saved = ctx.begin_part();
    assert_eq!(ctx.add_external_rel("https://example.org"), "rId1");
    assert_eq!(ctx.add_header_rel("header1.xml"), "rId2");
    let part = ctx.end_part(saved);
    assert_eq!(part.entries.len(), 1);
    assert_eq!(ctx.doc_rels.entries.len(), 2);
    ctx.in_footnote = true;
    assert_eq!(ctx.add_external_rel("a"), "rId1");
    ctx.in_footnote = false;
    ctx.in_comment = true;
    assert_eq!(ctx.add_external_rel("b"), "rId1");
    ctx.in_comment = false;
    assert_eq!(ctx.add_footer_rel("footer2.xml"), "rId3");
    assert_eq!(ctx.footnote_rels.entries[0].target, "a");
    assert_eq!(ctx.comment_rels.entries[0].target, "b");
    assert_eq!(ctx.doc_rels.entries[0].target, "media/image1.png");
}

#[test]
fn scopes_are_restored() {
    let mut ctx = DocxCtx::new();
    assert_eq!(ctx.available_width_dxa(), 9000);
    let width = ctx.narrow_available_width(0);
    assert_eq!(ctx.available_width_dxa(), 1);
    assert_eq!(ctx.page_content_width_dxa(), 9000);
    ctx.restore_available_width(width);
    assert_eq!(ctx.available_width_dxa(), 9000);
    let outer = ctx.enter_height_scope(Some(30 * POINT));
    assert_eq!((ctx.shape_height_base, ctx.raster_height), (Some(30 * POINT), 30 * POINT));
    let inner = ctx.enter_height_scope(Some(0));
    assert_eq!((ctx.shape_height_base, ctx.raster_height), (None, 30 * POINT));
    ctx.leave_height_scope(inner);
    ctx.leave_height_scope(outer);
    assert_eq!(ctx.raster_height, 842 * POINT);
    ctx.mark_math();
    assert!(ctx.uses_math);
}

#[test]
fn raw_text_is_found_by_its_range() {
    let range = |start, end| Some(RawRange { file: 1, start, end });
    let mut ctx = DocxCtx::new();
    ctx.record_raw_ranges(&vec![
        RawNode { own: range(0, 100), lines: vec![range(10, 20), range(10, 20), range(30, 30)] },
        RawNode { own: range(40, 50), lines: vec![] },
    ]);
    assert_eq!(ctx.raw_ranges.len(), 2);
    assert!(ctx.span_is_raw(range(12, 20)) && ctx.span_is_raw(range(40, 41)));
    assert!(!ctx.span_is_raw(range(19, 21)) && !ctx.span_is_raw(None));
    ctx.enter_raw();
    assert!(ctx.span_is_raw(None));
    ctx.leave_raw();
    assert!(!ctx.span_is_raw(None));
}

#[test]
fn drawn_figures_still_count() {
    let mut out = vec![Run::Tab];
    emit_rasterized_figure_seqs(&vec!["Figure".into(), "Table".into()], &mut out);
    assert_eq!(out.len(), 3);
    assert_eq!(field(&out[1]).instr, " SEQ Figure \\h ");
    assert_eq!(field(&out[2]).display, FieldDisplay::Hidden);
}

fn family(name: &str, available: bool, glyphs: &[u8]) -> Family {
    Family {
        name: name.into(),
        available,
        has_glyph: glyphs.iter().map(|g| *g > 0).collect(),
        admits: vec![true; glyphs.len()],
    }
}

fn no_fallback(n: usize) -> Fallback {
    Fallback { enabled: false, whole: None, single: (0..n).map(|_| None).collect() }
}

fn spans(families: Vec<Family>, fallback: Fallback) -> Vec<(String, String)> {
    split_by_font_coverage("abcd", &families, &fallback)
        .into_iter()
        .map(|s| (s.font, s.text))
        .collect()
}

#[test]
fn fonts_split_text_where_glyphs_are_missing() {
    let pair = |a: &str, b: &str| (a.to_string(), b.to_string());
    assert_eq!(spans(vec![], no_fallback(4)), vec![pair("", "abcd")]);
    let missing = family("M", false, &[1, 1, 1, 1]);
    assert_eq!(unavailable_families(&vec![family("M", false, &[])]), vec!["M"]);
    assert_eq!(spans(vec![missing], no_fallback(4)), vec![]);
    let latin = family("L", true, &[1, 0, 0, 1]);
    let other = family("O", true, &[1, 1, 0, 0]);
    assert_eq!(
        spans(vec![latin, other], no_fallback(4)),
        vec![pair("L", "a"), pair("O", "b"), pair("L", "cd")]
    );
    let latin = family("L", true, &[1, 0, 0, 1]);
    let mut fallback = no_fallback(4);
    fallback.enabled = true;
    fallback.single[1] = Some("F".into());
    fallback.single[2] = Some("F".into());
    assert_eq!(
        spans(vec![latin], fallback),
        vec![pair("L", "a"), pair("F", "bc"), pair("L", "d")]
    );
}

fn style() -> TextStyle {
    TextStyle {
        size_half_pt: 22,
        paint: TextPaint::Solid { color: [1, 2, 3], explicit: false },
        font: Some("Serif".into()),
        weight: 400,
        strong_delta: 0,
        slanted: false,
        emph: false,
        shift: None,
        decos: vec![],
        upper: false,
        smallcaps: false,
        tracking: 0,
        baseline: 0,
        right_to_left: false,
        lang: "en".into(),
        region: None,
    }
}

#[test]
fn text_formatting_follows_the_style() {
    let ctx = DocxCtx::new();
    let p = ctx.resolve_text_props(&style(), RunProps::default());
    assert_eq!(p.size_half_pt, Some(22));
    assert_eq!(p.color, Some([1, 2, 3]));
    assert_eq!(p.lang.as_deref(), Some("en"));
    assert!(!p.bold && !p.strong && !p.italic && !p.rtl && p.underline.is_none());
    let mut s = style();
    s.weight = 300;
    s.strong_delta = 300;
    s.slanted = true;
    s.emph = true;
    s.tracking = POINT / 2;
    s.baseline = -POINT;
    s.region = Some("GB".into());
    s.right_to_left = true;
    s.decos = vec![Deco::Strikethrough, Deco::Overline];
    let p = ctx.resolve_text_props(&s, RunProps::default());
    assert!(p.bold && p.strong && p.emphasis && !p.italic && p.strike && p.rtl && p.cs);
    assert_eq!((p.tracking, p.position_half_pt), (Some(10), Some(2)));
    assert_eq!(p.lang.as_deref(), Some("en-GB"));
}

#[test]
fn linked_text_keeps_an_explicit_color() {
    let ctx = DocxCtx::new();
    let mut linked = RunProps::default();
    linked.style = Some("Hyperlink".into());
    let mut s = style();
    s.paint = TextPaint::Solid { color: [9, 9, 9], explicit: true };
    let p = ctx.resolve_text_props(&s, linked);
    assert!(p.preserve_color);
    assert_eq!(p.underline.map(|u| u.val), Some("none"));
}

#[test]
fn dashes_name_the_underline() {
    let dot = DashLength::LineWidth;
    let dash = DashLength::Length(1);
    assert_eq!(classify_dash(&vec![]), "single");
    assert_eq!(classify_dash(&vec![dot, dash]), "dotted");
    assert_eq!(classify_dash(&vec![dash, dot]), "dash");
    assert_eq!(classify_dash(&vec![dash, dash, dot]), "dotDash");
    let u = underline_from_stroke(&UnderlineStroke {
        dash: Some(vec![dot]),
        color: Some([7, 8, 9]),
    });
    assert_eq!((u.val, u.color), ("dotted", Some([7, 8, 9])));
    let u = underline_from_stroke(&UnderlineStroke { dash: None, color: None });
    assert_eq!((u.val, u.color), ("single", None));
}

#[test]
fn highlights_take_the_nearest_name() {
    assert_eq!(word_highlight_name([255, 253, 17]), Some("yellow"));
    assert_eq!(word_highlight_name([0, 24, 0]), Some("black"));
    assert_eq!(word_highlight_name([0, 25, 0]), None);
    assert_eq!(word_highlight_name([128, 120, 140]), Some("darkGray"));
    let mut p = RunProps::default();
    apply_highlight(&mut p, HighlightPaint::Other);
    assert_eq!((p.highlight, p.shd_fill), (Some("yellow"), None));
    let paint = HighlightPaint::Solid { own: [0, 0, 1], composited: [200, 100, 50] };
    assert_eq!(highlight_rgb(paint), [200, 100, 50]);
    apply_highlight(&mut p, paint);
    assert_eq!((p.highlight, p.shd_fill), (None, Some([200, 100, 50])));
    let own = HighlightPaint::Solid { own: [255, 253, 17], composited: [0, 0, 0] };
    assert_eq!(highlight_rgb(own), [255, 253, 17]);
    assert_eq!(highlight_rgb(HighlightPaint::Gradient(None)), [255, 253, 17]);
}

fn par() -> ParStyle {
    ParStyle {
        justify: false,
        align: FixedAlignment::Start,
        right_to_left: false,
        line_numbers: false,
        font_size: 10 * POINT,
        leading: 6_500_000,
        frame_height: 7 * POINT,
        spacing: 12 * POINT,
        first_line_indent: 0,
        indent_all: false,
        hanging_indent: 0,
    }
}

#[test]
fn paragraph_formatting_follows_the_style() {
    let mut ctx = DocxCtx::new();
    let p = ctx.resolve_par_props(&par());
    let spacing = p.spacing.unwrap();
    assert_eq!((spacing.before, spacing.after, spacing.line), (Some(110), Some(110), None));
    assert_eq!(p.typst_par_spacing_after, Some(110));
    assert_eq!((p.jc, p.bidi, p.suppress_line_numbers), (None, false, false));
    ctx.line_numbering_active = true;
    let mut s = par();
    s.leading = 8 * POINT;
    s.first_line_indent = 20 * POINT;
    s.indent_all = true;
    s.hanging_indent = POINT;
    s.right_to_left = true;
    let p = ctx.resolve_par_props(&s);
    let spacing = p.spacing.unwrap();
    assert_eq!((spacing.line, spacing.line_rule_at_least), (Some(300), true));
    let ind = p.ind.unwrap();
    assert_eq!((ind.first_line, ind.hanging), (Some(400), Some(20)));
    assert!(p.suppress_line_numbers && p.bidi);
    assert_eq!(p.jc, Some(Jc::End));
    assert_eq!(consecutive_first_line_indent(&s), None);
    s.indent_all = false;
    assert_eq!(consecutive_first_line_indent(&s), Some(400));
    assert_eq!(resolve_par_jc(true, FixedAlignment::Center, false), Some(Jc::Both));
    assert_eq!(resolve_par_jc(false, FixedAlignment::End, true), Some(Jc::Start));
    assert_eq!(word_paragraph_boundary_spacing(POINT, 2 * POINT), 0);
    assert_eq!(text_frame_height(false, Some(7), 10), 7);
    assert_eq!(text_frame_height(true, Some(7), 10), 10);
    assert_eq!(text_frame_height(false, Some(0), 10), 10);
}

#[test]
fn typed_text_joins_equal_runs() {
    let mut ctx = DocxCtx::new();
    let mut out = Vec::new();
    let p = RunProps::default();
    ctx.push_text(&mut out, RunProps::default(), "a".into());
    ctx.type_space(&mut out, &p);
    assert_eq!(texts(&out), vec!["a "]);
    ctx.enter_raw();
    ctx.push_text(&mut out, RunProps::default(), "b".into());
    ctx.leave_raw();
    assert_eq!(texts(&out), vec!["a ", "b"]);
    assert_eq!(ctx.last_char, Some('b'));
    ctx.type_hspace(&mut out, &p, HAmount::Zero);
    ctx.type_hspace(&mut out, &p, HAmount::Length(7 * POINT));
    ctx.type_hspace(&mut out, &p, HAmount::Fraction);
    ctx.type_hspace(&mut out, &p, HAmount::Length(-POINT));
    assert_eq!(texts(&out), vec!["a ", "b", "  ", "-", " "]);
    ctx.push_linebreak(&mut out, Span(0));
    ctx.push_linebreak(&mut out, Span(4));
    ctx.push_separation(&mut out);
    assert_eq!(ctx.last_char, None);
    ctx.last_char = Some('b');
    let before = out.len();
    ctx.push_vspace(&mut out, true);
    assert_eq!((out.len(), ctx.last_char), (before, Some('b')));
    ctx.push_vspace(&mut out, false);
    assert_eq!((out.len(), ctx.last_char), (before + 1, None));
    let kinds: Vec<BreakKind> = out
        .iter()
        .filter_map(|r| match r {
            Run::Break { kind } => Some(*kind),
            _ => None,
        })
        .collect();
    let structure = BreakKind::Structure;
    assert_eq!(kinds, vec![structure, BreakKind::Authored, structure, structure]);
}

#[test]
fn whole_text_elements_are_review_candidates() {
    let mut ctx = DocxCtx::new();
    let mut out = Vec::new();
    let mut item = TextItem {
        text: "ab".into(),
        style: style(),
        span: Span(3),
        range: None,
        families: vec![family("L", true, &[1, 1])],
        fallback: no_fallback(2),
    };
    ctx.type_text(&mut out, &RunProps::default(), &item);
    assert_eq!(ctx.next_review_join_id, 2);
    match &out[0] {
        Run::Text { props, text } => {
            assert_eq!((text.as_str(), props.font.as_deref()), ("ab", Some("L")));
            assert_eq!(props.review_origin.map(|o| o.span), Some(Span(3)));
        }
        _ => panic!("text"),
    }
    item.families = vec![family("L", true, &[1, 0]), family("O", true, &[0, 1])];
    ctx.type_text(&mut out, &RunProps::default(), &item);
    assert_eq!(texts(&out), vec!["ab", "a", "b"]);
    assert_eq!(ctx.next_review_join_id, 2);
}

#[test]
fn formatting_elements_add_to_the_formatting() {
    let mut ctx = DocxCtx::new();
    let p = RunProps::default();
    let strong = ctx.formatted_props(&p, &Wrapper::Strong, Span(1));
    assert!(strong.bold && strong.strong && strong.review_origin.is_some());
    let sup = ctx.formatted_props(&strong, &Wrapper::Super, Span(1));
    assert!(sup.bold && sup.vert_align == Some(VertAlign::Super));
    let small = ctx.formatted_props(&p, &Wrapper::Smallcaps, Span(1));
    assert!(small.smallcaps && small.review_origin.is_none());
    let under = ctx.formatted_props(&p, &Wrapper::Underline(None), Span(1));
    assert_eq!(under.underline.map(|u| u.val), Some("single"));
    assert_eq!(ctx.next_review_join_id, 4);
    let link = ctx.link_props(&strong, Span(9));
    assert!(link.bold && link.review_origin.is_some_and(|o| o.span == Span(9)));
    assert_eq!(ctx.next_review_join_id, 5);
    let bdr = ParaBorder { style: "single", sz: 4, space: 1, color: [0, 0, 0] };
    let framed = framed_props(&p, Some([5, 5, 5]), Some(bdr));
    assert_eq!(framed.shd_fill, Some([5, 5, 5]));
    assert_eq!(framed_props(&framed, Some([6, 6, 6]), None).shd_fill, Some([5, 5, 5]));
}

#[test]
fn page_counters_are_live() {
    let mut ctx = DocxCtx::new();
    let mut out = Vec::new();
    let p = RunProps::default();
    ctx.push_page_counter(&mut out, &p, &style(), Some(Jc::Center), String::new());
    ctx.push_page_counter(&mut out, &p, &style(), Some(Jc::End), "iv".into());
    assert_eq!(field(&out[0]).instr, " PAGE ");
    assert_eq!(texts(&field(&out[0]).result), vec!["1"]);
    assert_eq!(texts(&field(&out[1]).result), vec!["iv"]);
    assert_eq!(ctx.take_page_counter_paragraph_alignment(), Some(Jc::Center));
    assert_eq!(ctx.take_page_counter_paragraph_alignment(), None);
}

#[test]
fn links_depend_on_what_they_stand_for() {
    let mut ctx = DocxCtx::new();
    let mut out = Vec::new();
    ctx.push_direct_link(&mut out, LinkKind::Page, loc(1), vec![text("3")]);
    ctx.push_direct_link(&mut out, LinkKind::Reference, loc(1), vec![text("Fig 1")]);
    ctx.push_direct_link(&mut out, LinkKind::Plain, loc(2), vec![text("see")]);
    assert_eq!(texts(&out), vec!["-", "Fig ", "-", "see"]);
    assert_eq!(field(&out[0]).instr, " PAGEREF _Ref1 \\h ");
    assert_eq!(field(&out[2]).instr, " REF _Ref1Number \\h ");
}

fn element(kind: Kind, children: Vec<Content>) -> Content {
    Content { kind, span: Span(1), location: None, labelled: false, text_chars: 0, children }
}

fn words() -> Content {
    element(Kind::Text { blank: false }, vec![])
}

const OPEN: InlineFrame = InlineFrame { painted: false, clips: false };
const FRESH: InlineDeclined = InlineDeclined {
    canvas: false,
    clipped: false,
    box_canvas: false,
    shape: false,
    path: false,
    transformed: false,
};

#[test]
fn inline_elements_have_a_route() {
    let route = |c: &Content| route_inline(c, OPEN, FRESH, false);
    assert_eq!(route(&words()), InlineRoute::Text);
    assert_eq!(route(&element(Kind::Counter { page: true }, vec![])), InlineRoute::PageCounter);
    assert_eq!(route(&element(Kind::Footnote, vec![])), InlineRoute::Footnote);
    let note = element(Kind::Footnote, vec![]);
    assert_eq!(route_inline(&note, OPEN, FRESH, true), InlineRoute::NestedFootnote);
    let plain = Kind::Box { plain: true, fixed_height: false };
    assert_eq!(route(&element(plain, vec![])), InlineRoute::EmptyBox);
    assert_eq!(route(&element(plain, vec![words()])), InlineRoute::PlainBox);
    let sized = Kind::Box { plain: true, fixed_height: true };
    let image = element(Kind::Image, vec![]);
    assert_eq!(route(&element(sized, vec![image])), InlineRoute::SizedImage);
    let framed = Kind::Box { plain: false, fixed_height: false };
    let c = element(framed, vec![words()]);
    assert_eq!(route(&c), InlineRoute::BoxImage);
    let painted = InlineFrame { painted: true, clips: false };
    assert_eq!(route_inline(&c, painted, FRESH, false), InlineRoute::Framed);
    let clips = InlineFrame { painted: false, clips: true };
    assert_eq!(route_inline(&c, clips, FRESH, false), InlineRoute::ClippedImage);
    let rotated = element(Kind::Rotate, vec![words()]);
    assert_eq!(route(&rotated), InlineRoute::Shape);
    let mut d = FRESH;
    d.shape = true;
    assert_eq!(route_inline(&rotated, OPEN, d, false), InlineRoute::Transformed);
    d.transformed = true;
    assert_eq!(route_inline(&rotated, OPEN, d, false), InlineRoute::Raster);
}

#[test]
fn children_have_a_route() {
    let route = |c: &Content, linked| route_child(c, OPEN, linked);
    assert_eq!(route(&element(Kind::Tag, vec![]), true), ChildRoute::Tag);
    assert_eq!(route(&element(Kind::Link, vec![]), true), ChildRoute::Link);
    assert_eq!(route(&words(), true), ChildRoute::Linked);
    assert_eq!(route(&words(), false), ChildRoute::Inline);
    let placed = element(Kind::Place { float: false }, vec![]);
    assert_eq!(route(&placed, false), ChildRoute::Placed);
    let around = |inner| element(Kind::Box { plain: true, fixed_height: false }, inner);
    assert_eq!(route(&around(vec![placed]), false), ChildRoute::Placed);
    let placed_text = element(Kind::Place { float: false }, vec![words()]);
    assert_eq!(route(&around(vec![placed_text]), false), ChildRoute::Inline);
}

fn outline(children: &[ParaChild]) -> Vec<String> {
    children
        .iter()
        .map(|c| match c {
            ParaChild::Run(Run::Text { text, .. }) => text.clone(),
            ParaChild::Run(Run::Field(f)) => format!("{}{}", f.instr, f.result.len()),
            ParaChild::Run(_) => "run".into(),
            ParaChild::Hyperlink { rel, anchor, runs } => {
                format!("link {rel:?} {anchor:?} {}", runs.len())
            }
            ParaChild::Tag(_) => "tag".into(),
            ParaChild::BookmarkStart { id, name } => format!("start {id} {name}"),
            ParaChild::BookmarkEnd { id } => format!("end {id}"),
            _ => "other".into(),
        })
        .collect()
}

#[test]
fn a_page_reference_is_one_field() {
    let mut ctx = DocxCtx::new();
    let mut children = Children::new();
    let dest = Destination::Location(loc(1));
    for part in ["1", "2"] {
        children.linked(&mut ctx, &dest, LinkKind::Page, Span(5), None, vec![text(part)]);
    }
    children.linked(&mut ctx, &dest, LinkKind::Page, Span(6), None, vec![text("3")]);
    assert_eq!(outline(&children.out), vec![" PAGEREF _Ref1 \\h 2", " PAGEREF _Ref1 \\h 1"]);
}

#[test]
fn a_page_reference_behind_marks_is_one_field() {
    let mut ctx = DocxCtx::new();
    let mut children = Children::new();
    let dest = Destination::Location(loc(1));
    children.runs(vec![text("a")]);
    ctx.keep_hidden_tags(&vec![Tag::End { location: loc(1) }]);
    children.linked(&mut ctx, &dest, LinkKind::Page, Span(5), None, vec![text("1")]);
    children.end_child(&mut ctx, 1, 0, Some(loc(2)));
    children.linked(&mut ctx, &dest, LinkKind::Page, Span(5), None, vec![text("2")]);
    assert_eq!(
        outline(&children.out),
        vec!["a", "tag", "start 2 _Ref2", " PAGEREF _Ref1 \\h 2", "end 2"]
    );
    children.end_child(&mut ctx, 5, 0, None);
    assert_eq!(children.page_field.map(|f| f.index), Some(3));
}

#[test]
fn destinations_become_links() {
    let mut ctx = DocxCtx::new();
    let mut children = Children::new();
    let url = Destination::Url("https://example.org".into());
    children.linked(&mut ctx, &url, LinkKind::Plain, Span(1), None, vec![text("a")]);
    let page = Destination::Page(4);
    children.linked(&mut ctx, &page, LinkKind::Plain, Span(1), None, vec![text("b")]);
    ctx.page_bookmark_for_emission(loc(8), 4);
    children.linked(&mut ctx, &page, LinkKind::Plain, Span(1), None, vec![text("c")]);
    children.linked(&mut ctx, &page, LinkKind::Plain, Span(1), Some(loc(8)), vec![text("d")]);
    children.direct_link(&mut ctx, LinkKind::Plain, loc(9), "_X".into(), vec![text("e")]);
    assert_eq!(
        outline(&children.out),
        vec![
            "link Some(\"rId1\") None 1",
            "b",
            "link None Some(\"_TypstPage4\") 1",
            "d",
            "link None Some(\"_X\") 1"
        ]
    );
}

#[test]
fn labelled_children_become_targets() {
    let mut ctx = DocxCtx::new();
    let mut children = Children::new();
    children.runs(vec![text("a")]);
    ctx.keep_hidden_tags(&vec![Tag::End { location: loc(1) }]);
    children.runs(vec![text("b")]);
    children.end_child(&mut ctx, 1, 0, Some(loc(2)));
    assert_eq!(outline(&children.out), vec!["a", "tag", "start 1 _Ref1", "b", "end 1"]);
    assert!(ctx.deferred_tags.is_empty());
    children.end_child(&mut ctx, 5, 0, Some(loc(3)));
    assert_eq!(children.out.len(), 5);
}

#[test]
fn adjacent_equal_links_merge() {
    let link = |anchor: &str, s: &str| ParaChild::Hyperlink {
        rel: None,
        anchor: Some(anchor.into()),
        runs: vec![text(s)],
    };
    let merged = merge_hyperlinks(vec![
        link("x", "a"),
        link("x", "b"),
        link("y", "c"),
        ParaChild::Run(text("d")),
        link("y", "e"),
    ]);
    assert_eq!(
        outline(&merged),
        vec![
            "link None Some(\"x\") 2",
            "link None Some(\"y\") 1",
            "d",
            "link None Some(\"y\") 1"
        ]
    );
}

#[test]
fn placed_content_falls_back_in_steps() {
    let ctx = DocxCtx::new();
    let p = RunProps::default();
    let place = |runs: Vec<Run>, image: Vec<Run>, words: &str| {
        let mut out = Vec::new();
        let r = ctx.push_placed(&mut out, runs, image, words.into(), &style(), &p);
        (out.len(), r.map(|d| (d.reason, d.losses, d.affected_text_chars)))
    };
    assert_eq!(
        place(vec![text("a"), text("b")], vec![], "x"),
        (2, Some((DecisionReason::PositionedContentFlowFallback, LossSet::VisualOnly, 0)))
    );
    assert_eq!(place(vec![], vec![text("i")], "x"), (1, None));
    assert_eq!(
        place(vec![], vec![], " xy"),
        (
            1,
            Some((
                DecisionReason::PositionedContentPlainTextFallback,
                LossSet::PlainTextFallback,
                3
            ))
        )
    );
    assert_eq!(
        place(vec![], vec![], " "),
        (0, Some((DecisionReason::InlinePositionedContentUnavailable, LossSet::Drop, 0)))
    );
}

#[test]
fn nested_scopes_take_the_container() {
    let ctx = DocxCtx::new();
    let half = Rel { abs: 0, ratio: 500_000 };
    let dims = ctx.inline_place_body_dims(Some(half), Some(half));
    assert_eq!(dims, (Some(225 * POINT), Some(349 * POINT)));
    let scope = ctx.place_scope(dims.0, None);
    assert_eq!((scope.width_dxa, scope.height), (Some(4500), Some(698 * POINT)));
    assert_eq!(ctx.place_scope(Some(450 * POINT), None).width_dxa, None);
    assert_eq!(ctx.plain_box_scope(Some(450 * POINT), Some(7)).width_dxa, Some(9000));
}

#[test]
fn losses_are_reported() {
    let mut ctx = DocxCtx::new();
    let decision = ctx.plain_block_report(9).unwrap();
    assert_eq!(decision.reason, DecisionReason::InlineBlockFlowApproximation);
    assert_eq!(decision.affected_text_chars, 9);
    ctx.cell_owns_inline_block_geometry = true;
    assert_eq!(ctx.plain_block_report(9), None);
    let drop = record_content_drop(" \n a b \t", DecisionReason::UnsupportedContent);
    assert_eq!((drop.representation, drop.affected_text_chars), (Representation::Drop, 3));
    let none = record_content_drop(" \n ", DecisionReason::UnsupportedContent);
    assert_eq!(none.affected_text_chars, 0);
    let empty = element(Kind::Box { plain: true, fixed_height: false }, vec![]);
    let mut out = Vec::new();
    let image = || vec![Run::Break { kind: BreakKind::Authored }];
    let figures = vec![String::from("Figure")];
    assert_eq!(rasterize_fallback(&empty, image(), &figures, &mut out), None);
    assert!(matches!(&out[0], Run::Field(f) if f.instr == " SEQ Figure \\h "));
    assert!(matches!(out[1], Run::Break { kind: BreakKind::Authored }));
    let strut = rasterize_fallback(&empty, vec![], &figures, &mut out).unwrap();
    assert_eq!(strut.reason, DecisionReason::EmptyBoxGeometryApproximation);
    assert!(out.len() == 3 && matches!(out[2], Run::Field(_)));
    let lost = rasterize_fallback(&words(), vec![], &vec![], &mut out).unwrap();
    assert_eq!(lost.reason, DecisionReason::UnsupportedContent);
    let space = element(Kind::VSpace, vec![]);
    assert_eq!(rasterize_fallback(&space, vec![], &vec![], &mut out), None);
    assert_eq!(out.len(), 3);
    assert_eq!(report_unavailable(&space), None);
    assert_eq!(report_unavailable(&empty), Some(strut));
    assert_eq!(report_unavailable(&words()), Some(lost));
    let live = link_report(LinkKind::Page).unwrap();
    assert_eq!(live.representation, Representation::Native);
    assert_eq!(live.reason, DecisionReason::NativePageReference);
    assert_eq!(link_report(LinkKind::Reference), None);
    let mark = ctx.deferred_tags.len();
    ctx.keep_hidden_tags(&vec![Tag::End { location: loc(1) }]);
    assert!(!ctx.box_image_or_content(image(), &figures, mark, &mut out));
    assert_eq!((ctx.deferred_tags.len(), out.len()), (1, 5));
    assert!(matches!(out[3], Run::Field(_)) && matches!(out[4], Run::Break { .. }));
    assert!(ctx.box_image_or_content(vec![], &figures, mark, &mut out));
    assert_eq!((ctx.deferred_tags.len(), out.len()), (0, 5));
}

#[test]
fn context_text_is_resolved() {
    let parts = vec![String::from("a"), String::from("b")];
    assert_eq!(resolved_plain_text("d".into(), false, &parts), "d");
    assert_eq!(resolved_plain_text("d".into(), true, &parts), "ab");
    assert_eq!(resolved_plain_text("d".into(), true, &vec![String::new()]), "d");
}
