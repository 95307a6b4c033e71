//! Introspection of the exported document.

use rustc_hash::{FxHashMap, FxHashSet};
use typst_docx::bookmark::anchors;
use typst_docx::ctx::state::DocxCtx;
use typst_docx::document::geometry::NumberingId;
use typst_docx::dom::Location;
use typst_docx::introspect::{
    CountRoute, DocxIntrospector, EndFact, Known, PositionRoute, Side, count_matching_up_to_page,
    furniture_matches,
};

const UNKNOWN: Known = Known { paged: false, element: false };
const EXPORTED: Known = Known { paged: false, element: true };
const PAGED: Known = Known { paged: true, element: true };

fn fact(n: u128, equivalent: Option<(u128, bool)>) -> EndFact {
    EndFact {
        location: Location(n),
        introspectable: true,
        positioned: false,
        equivalent: equivalent.map(|(l, p)| (Location(l), p)),
    }
}

fn layered() -> DocxIntrospector {
    let candidates: FxHashSet<u128> = [1, 2, 3].into_iter().collect();
    let mut known = fact(3, Some((30, true)));
    known.positioned = true;
    let facts = vec![
        fact(1, Some((10, true))),
        fact(2, Some((20, false))),
        known,
        fact(4, Some((40, true))),
    ];
    DocxIntrospector::new(true, &facts, &candidates)
}

fn flat() -> DocxIntrospector {
    DocxIntrospector::new(false, &vec![], &FxHashSet::default())
}

#[test]
fn furniture_gets_an_alias() {
    let i = layered();
    assert_eq!(i.real_location(Location(1), EXPORTED), Some(Location(10)));
    for n in [2, 3, 4] {
        assert_eq!(i.real_location(Location(n), EXPORTED), None);
        assert_eq!(i.real_location(Location(n), PAGED), Some(Location(n)));
    }
    assert_eq!(flat().real_location(Location(1), PAGED), None);
}

fn with_model(mut i: DocxIntrospector) -> DocxIntrospector {
    let model: FxHashMap<u128, (usize, usize)> =
        [(5, (2, 1)), (6, (0, 0))].into_iter().collect();
    i.set_page_model(model, 4, vec![None, Some(NumberingId(7))]);
    i
}

#[test]
fn every_location_has_a_page() {
    let i = with_model(flat());
    assert_eq!(i.page(Location(5), EXPORTED, None), 2);
    assert_eq!(i.page(Location(6), EXPORTED, None), 1);
    assert_eq!(i.page(Location(9), UNKNOWN, None), 4);
    assert_eq!(i.pages(Some(9)), Some(4));
    let i = with_model(layered());
    assert_eq!(i.page(Location(5), PAGED, Some(8)), 8);
    assert_eq!(i.page(Location(5), EXPORTED, Some(8)), 2);
    assert_eq!(i.pages(Some(9)), Some(9));
    let mut i = flat();
    i.set_page_model(FxHashMap::default(), 0, vec![]);
    assert_eq!(i.pages(None), Some(1));
}

#[test]
fn furniture_pages_override_unknown_locations() {
    let mut i = with_model(flat());
    let previous = i.start_furniture_page(3);
    assert_eq!(i.page(Location(9), UNKNOWN, None), 3);
    assert_eq!(i.page(Location(5), EXPORTED, None), 2);
    assert_eq!(i.position(Location(9), UNKNOWN, false), PositionRoute::Page(3));
    assert_eq!(
        i.query_count_before(Location(9), UNKNOWN, None, false),
        CountRoute::UpToPage(3)
    );
    i.end_furniture_page(previous);
    assert_eq!(i.page(Location(9), UNKNOWN, None), 4);
    let mut i = layered();
    i.start_furniture_page(3);
    assert_eq!(i.furniture_page_override(EXPORTED), Some(3));
    assert_eq!(i.furniture_page_override(PAGED), None);
}

#[test]
fn numberings_fall_back_to_the_model() {
    let i = with_model(layered());
    assert_eq!(i.page_numbering(Location(5), PAGED, Some(NumberingId(1))), Some(NumberingId(1)));
    assert_eq!(i.page_numbering(Location(5), PAGED, None), Some(NumberingId(7)));
    assert_eq!(i.page_numbering(Location(6), EXPORTED, Some(NumberingId(1))), None);
    assert_eq!(i.page_numbering(Location(9), UNKNOWN, None), Some(NumberingId(7)));
}

#[test]
fn paged_answers_win() {
    let i = layered();
    assert_eq!(i.position(Location(1), EXPORTED, true), PositionRoute::Real(Location(10)));
    assert_eq!(i.position(Location(1), EXPORTED, false), PositionRoute::Elements);
    assert_eq!(
        i.query_count_before(Location(1), EXPORTED, None, true),
        CountRoute::Real(Location(10))
    );
    assert_eq!(i.query_count_before(Location(2), EXPORTED, None, true), CountRoute::UpToPage(1));
    assert_eq!(i.query_count_before(Location(2), EXPORTED, None, false), CountRoute::Elements);
    assert!(i.prefers_real(false) && !i.prefers_real(true) && !flat().prefers_real(false));
    assert_eq!((i.label_count(2, 5), i.label_count(0, 5), flat().label_count(2, 5)), (2, 5, 5));
    assert_eq!(i.layered_answer(Some(1), Some(2)), Some(1));
    assert_eq!(i.layered_answer(None, Some(2)), Some(2));
    assert_eq!(flat().layered_answer(Some(1), Some(2)), Some(2));
    assert_eq!(i.real_answer(Location(1), EXPORTED, Some(9)), Some(9));
    assert_eq!(i.real_answer(Location(2), EXPORTED, Some(9)), None);
}

#[test]
fn anchors_name_the_bookmarks() {
    let mut ctx = DocxCtx::new();
    ctx.add_bookmark(Location(8));
    let names = anchors(&ctx.bookmarks);
    assert_eq!(names.len(), 1);
    let mut i = layered();
    i.set_anchors(names);
    assert_eq!(i.anchor(Location(8), Some("loc-8")), Some("_Ref1"));
    assert_eq!(i.anchor(Location(9), Some("loc-9")), Some("loc-9"));
    assert_eq!(flat().anchor(Location(9), Some("loc-9")), None);
}

#[test]
fn matches_are_counted_by_page() {
    let pages = vec![Some(1), None, Some(2), Some(3)];
    assert_eq!(count_matching_up_to_page(&pages, 2), 3);
    assert_eq!(count_matching_up_to_page(&pages, 0), 1);
    assert_eq!(
        furniture_matches(&pages, 2, Side::Before, false),
        vec![true, false, false, false]
    );
    assert_eq!(furniture_matches(&pages, 2, Side::Before, true), vec![true, false, true, false]);
    assert_eq!(furniture_matches(&pages, 2, Side::After, true), vec![false, false, true, true]);
}
