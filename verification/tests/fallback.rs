//! Text and images of laid-out content.

use typst_docx::content::{Content, Kind};
use typst_docx::ctx::state::DocxCtx;
use typst_docx::dom::{Location, Span, Tag, TagElem};
use typst_docx::fallback::layout::{
    Attempt, FrameFacts, LaidOut, RasterChoice, SuppressedKind, choose_raster,
    first_raster_height, measure, pathological_raster_ink, settle_layout, usable_size,
};
use typst_docx::fallback::text::{
    Frame, FrameItem, Placed, TextRun, collect_frame_tags, frame_to_placed_text, frame_to_text,
    positioned_text_to_string,
};
use typst_docx::fallback::tiles::{TileError, slice_png_tiles, tile_image};
use typst_docx::report::DecisionReason;

fn pt(points: f64) -> i64 {
    (points * 1_000_000.0) as i64
}

fn run(x: f64, y: f64, text: &str, width: f64) -> TextRun {
    TextRun { x: pt(x), y: pt(y), text: text.into(), size: pt(10.0), width: pt(width) }
}

#[test]
fn recovered_text_joins_only_runs_that_continue_each_other() {
    // Exactly abutting runs are one word (a formatting change mid-word); a gap is
    // a space.
    assert_eq!(
        positioned_text_to_string(vec![
            run(0.0, 0.0, "Job", 15.0),
            run(15.0, 0.0, "ber", 15.0),
            run(60.0, 0.0, "Tagline", 30.0),
        ]),
        "Jobber Tagline"
    );
}

#[test]
fn recovered_text_never_glues_overlapping_runs() {
    // Independent runs that overlap are not a continuation of each other.
    assert_eq!(
        positioned_text_to_string(vec![
            run(0.0, 0.0, "Boost", 25.0),
            run(10.0, 0.0, "Handling", 40.0),
        ]),
        "Boost Handling"
    );
}

#[test]
fn recovered_text_reads_line_by_line() {
    assert_eq!(
        positioned_text_to_string(vec![
            run(0.0, 20.0, "below", 25.0),
            run(40.0, 0.0, "right", 25.0),
            run(0.0, 0.0, "left", 20.0),
        ]),
        "left right\nbelow"
    );
    assert_eq!(positioned_text_to_string(vec![]), "");
    // White space at the end of a run is not doubled.
    assert_eq!(
        positioned_text_to_string(vec![run(0.0, 0.0, "a ", 9.0), run(30.0, 0.0, "b", 5.0)]),
        "a b"
    );
}

#[test]
fn tall_raster_tiles_prefer_transparent_seams_and_preserve_rows() {
    let mut pixmap = tiny_skia::Pixmap::new(2, 10).unwrap();
    for y in 0..10 {
        for x in 0..2 {
            pixmap.pixels_mut()[y * 2 + x] =
                tiny_skia::PremultipliedColorU8::from_rgba(0, y as u8, 0, 255).unwrap();
        }
    }
    pixmap.data_mut()[4 * 2 * 4..5 * 2 * 4].fill(0);
    let tiles = slice_png_tiles(&pixmap, 6).unwrap();
    let heights: Vec<u32> = tiles.iter().map(|tile| tile.rows).collect();
    assert_eq!(heights, vec![5, 5]);
    let mut rows = Vec::new();
    for tile in tiles {
        let tile = tiny_skia::Pixmap::decode_png(&tile.png).unwrap();
        rows.extend(tile.pixels().iter().map(|p| p.green()));
    }
    assert_eq!(rows, pixmap.pixels().iter().map(|p| p.green()).collect::<Vec<_>>());
}

fn opaque(width: u32, height: u32) -> tiny_skia::Pixmap {
    let mut pixmap = tiny_skia::Pixmap::new(width, height).unwrap();
    for (i, pixel) in pixmap.pixels_mut().iter_mut().enumerate() {
        *pixel = tiny_skia::PremultipliedColorU8::from_rgba(i as u8, 0, 0, 255).unwrap();
    }
    pixmap
}

#[test]
fn tiles_without_a_seam_are_cut_at_the_limit() {
    let pixmap = opaque(3, 10);
    let tiles = slice_png_tiles(&pixmap, 4).unwrap();
    let heights: Vec<u32> = tiles.iter().map(|tile| tile.rows).collect();
    assert_eq!(heights, vec![4, 4, 2]);
    let mut bytes = Vec::new();
    for tile in &tiles {
        bytes.extend(tiny_skia::Pixmap::decode_png(&tile.png).unwrap().data().to_vec());
    }
    assert_eq!(bytes, pixmap.data());
}

#[test]
fn tiles_without_rows_cannot_be_cut() {
    assert!(matches!(slice_png_tiles(&opaque(1, 3), 0), Err(TileError::Unsplittable)));
}

#[test]
fn an_image_that_fits_is_embedded_as_it_is() {
    let images = tile_image(vec![1, 2, 3], pt(10.0), pt(20.0), pt(700.0)).unwrap();
    assert_eq!(images.len(), 1);
    assert_eq!(images[0].png, vec![1, 2, 3]);
    assert_eq!((images[0].width, images[0].height), (pt(10.0), pt(20.0)));
}

#[test]
fn a_tall_image_is_tiled_at_its_size_on_the_page() {
    let png = opaque(2, 100).encode_png().unwrap();
    let images = tile_image(png, pt(10.0), pt(50.0), pt(20.0)).unwrap();
    let heights: Vec<i64> = images.iter().map(|i| i.height).collect();
    assert_eq!(heights, vec![pt(20.0), pt(20.0), pt(10.0)]);
    assert!(images.iter().all(|i| i.width == pt(10.0)));
    let first = tiny_skia::Pixmap::decode_png(&images[0].png).unwrap();
    assert_eq!((first.width(), first.height()), (2, 40));
}

#[test]
fn an_unreadable_image_cannot_be_tiled() {
    let result = tile_image(vec![0; 8], pt(10.0), pt(50.0), pt(20.0));
    assert!(matches!(result, Err(TileError::Undecodable)));
    assert_eq!(TileError::Undecodable.message(), "could not decode DOCX raster fallback");
    assert_eq!(TileError::Unsplittable.message(), "could not split DOCX raster fallback");
    assert_eq!(TileError::Unencodable.message(), "could not encode DOCX raster tile");
}

fn start(location: u128, elem: TagElem) -> FrameItem {
    FrameItem::Tag(Tag::Start { location: Some(Location(location)), elem })
}

fn end(location: u128) -> FrameItem {
    FrameItem::Tag(Tag::End { location: Location(location) })
}

fn label(text: &str) -> FrameItem {
    FrameItem::Text { text: text.into(), size: pt(10.0), width: pt(20.0) }
}

fn at(x: f64, y: f64, item: FrameItem) -> Placed {
    Placed { x: pt(x), y: pt(y), item }
}

#[test]
fn a_frame_is_read_with_the_frames_in_it() {
    let inner = Frame { items: vec![at(5.0, 0.0, label("inner")), at(0.0, 0.0, end(7))] };
    let frame = Frame {
        items: vec![
            at(0.0, 0.0, start(7, TagElem::Other)),
            at(0.0, 40.0, label("last")),
            at(10.0, 0.0, FrameItem::Group { tx: pt(1.0), ty: pt(2.0), frame: inner }),
            at(0.0, 0.0, label("")),
            at(0.0, 0.0, FrameItem::Other),
        ],
    };
    assert_eq!(frame_to_text(&frame), "inner\nlast");
    let mut tags = Vec::new();
    collect_frame_tags(&frame, &mut tags);
    assert_eq!(tags.len(), 2);
    assert!(matches!(tags[1], Tag::End { location: Location(7) }));
}

#[test]
fn placed_labels_stay_apart() {
    let frame = Frame {
        items: vec![
            at(0.0, 0.0, label("stray")),
            at(0.0, 0.0, start(1, TagElem::Place)),
            at(0.0, 0.0, label("one")),
            at(0.0, 0.0, end(1)),
            at(0.0, 0.0, start(2, TagElem::Place)),
            at(0.0, 0.0, label("two")),
            at(0.0, 0.0, end(2)),
        ],
    };
    assert_eq!(frame_to_placed_text(&frame), "one\ntwo");
}

#[test]
fn layout_attempts_degrade_on_their_own() {
    let laid = settle_layout(Attempt::Laid(5), 1, 2);
    assert_eq!(laid.frame, Some(5));
    assert!(!laid.failed && !laid.warn);
    assert_eq!(
        laid.suppressed,
        vec![SuppressedKind::DelayedError, SuppressedKind::Warning, SuppressedKind::Warning]
    );
    let failed = settle_layout::<u8>(Attempt::Errors(2), 0, 0);
    assert!(failed.frame.is_none() && failed.failed && !failed.warn);
    assert_eq!(failed.suppressed, vec![SuppressedKind::Error, SuppressedKind::Error]);
    let panicked = settle_layout::<u8>(Attempt::Panicked, 0, 0);
    assert!(panicked.failed && panicked.warn);
    assert_eq!(panicked.suppressed, vec![SuppressedKind::Panic]);
}

fn facts(w: Option<i64>, h: Option<i64>, ink: Option<(i64, i64)>) -> Option<FrameFacts> {
    Some(FrameFacts { width: w, height: h, ink })
}

#[test]
fn only_usable_frames_are_drawn() {
    assert!(usable_size(Some(1), Some(1)));
    assert!(!usable_size(Some(0), Some(1)));
    assert!(!usable_size(None, Some(1)));
    assert_eq!(measure(Some((Some(3), Some(4)))), Some((3, 4)));
    assert_eq!(measure(Some((Some(3), None))), None);
    assert_eq!(measure(None), None);
    let huge = facts(Some(1), Some(1), Some((pt(8000.1), 1)));
    assert!(pathological_raster_ink(&huge.unwrap()));
    let good = facts(Some(1), Some(1), Some((pt(8000.0), 1)));
    assert_eq!(choose_raster(&good, false, &None, false), RasterChoice::First);
    assert_eq!(choose_raster(&huge, false, &good, false), RasterChoice::Retry);
    assert_eq!(
        choose_raster(&None, true, &huge, false),
        RasterChoice::Neither { failed: true }
    );
    assert_eq!(
        choose_raster(&huge, false, &None, false),
        RasterChoice::Neither { failed: false }
    );
}

fn content(kind: Kind, children: Vec<Content>) -> Content {
    Content { kind, span: Span(0), location: None, labelled: false, text_chars: 0, children }
}

#[test]
fn equations_start_at_the_height_of_a_page() {
    let plain = content(Kind::Par, vec![]);
    assert_eq!(first_raster_height(&plain, 700), None);
    let math = content(Kind::Par, vec![content(Kind::Equation { block: true }, vec![])]);
    assert_eq!(first_raster_height(&math, 700), Some(700));
}

#[test]
fn fallback_text_keeps_the_tags_of_both_attempts() {
    let mut ctx = DocxCtx::new();
    let rejected = Frame { items: vec![at(0.0, 0.0, start(1, TagElem::Other))] };
    let accepted = Frame { items: vec![at(0.0, 0.0, label("x")), at(0.0, 0.0, end(1))] };
    let first = Some(LaidOut { width: Some(1), height: Some(0), frame: &rejected });
    let retry = Some(LaidOut { width: Some(1), height: Some(1), frame: &accepted });
    let text = ctx.layout_fallback_text(first, retry);
    assert_eq!(text.as_deref(), Some("x"));
    assert_eq!(ctx.deferred_tags.len(), 2);
    assert!(ctx.layout_fallback_text(first, None).is_none());
    assert_eq!(ctx.deferred_tags.len(), 3);
    assert!(ctx.layout_fallback_text(first, first).is_none());
    assert_eq!(ctx.deferred_tags.len(), 4);
    let text = ctx.layout_fallback_text(retry, first);
    assert_eq!((text.as_deref(), ctx.deferred_tags.len()), (Some("x"), 5));
}

#[test]
fn a_cached_overlay_is_placed_like_a_fresh_one() {
    let tags = vec![Tag::End { location: Location(9) }];
    let mut fresh = DocxCtx::new();
    fresh.keep_overlay_tags(&tags);
    let (rel, decision) = fresh.embed_raster(
        "word/media/image1.png",
        DecisionReason::PageOverlayRasterFallback,
        "abc",
    );
    assert_eq!(rel, "rId1");
    assert_eq!(decision.affected_text_chars, 3);
    let mut cached = DocxCtx::new();
    let (again, same) = cached.place_cached_overlay("word/media/image1.png", "abc", &tags);
    assert_eq!(again, rel);
    assert_eq!(same, decision);
    assert_eq!(cached.doc_rels, fresh.doc_rels);
    assert!(cached.real_alias_locations.contains(&9));
    assert_eq!(cached.deferred_tags, tags);
}
