//! What page setups and page numbers say of the pages they were made for.

use vstd::prelude::*;

use crate::document::furniture::adjusted_band;
use crate::document::geometry::{
    HAlign, PageFacts, PageSize, SectGeom, band_in, common_valign, first_reset, is_geometry,
    item_page_size, margin, number_jc_of, page_reset, page_size, pages_extent,
};
use crate::document::page_numbers::{
    NumberItem, NumberPattern, PageNumbering, format_of, format_switch, kth_format, number_items,
    page_number_items, place_instruction,
};
use crate::document::furniture::FurnitureSlot;
use crate::document::parts::{page_number_settings, part_rel};
use crate::document::sections::FlowItem;
use crate::dom::{Jc, TagElem, VAlign};
use crate::rels::RelMode;
use crate::length::{Rel, round_div, rounding_is_to_the_nearest, shares_are_of_the_base, twips};

verus! {

proof fn number_words()
    ensures
        "01"@ != "a"@,
        "01"@ != "A"@,
        "01"@ != "i"@,
        "01"@ != "I"@,
        "a"@ != "A"@,
        "a"@ != "i"@,
        "a"@ != "I"@,
        "A"@ != "i"@,
        "A"@ != "I"@,
        "i"@ != "I"@,
        "decimalZero"@ != "lowerLetter"@,
        "decimalZero"@ != "upperLetter"@,
        "decimalZero"@ != "lowerRoman"@,
        "decimalZero"@ != "upperRoman"@,
        "decimalZero"@ != "decimal"@,
        "lowerLetter"@ != "upperLetter"@,
        "lowerLetter"@ != "lowerRoman"@,
        "lowerLetter"@ != "upperRoman"@,
        "lowerLetter"@ != "decimal"@,
        "upperLetter"@ != "lowerRoman"@,
        "upperLetter"@ != "upperRoman"@,
        "upperLetter"@ != "decimal"@,
        "lowerRoman"@ != "upperRoman"@,
        "lowerRoman"@ != "decimal"@,
        "upperRoman"@ != "decimal"@,
        "roman"@ != "ROMAN"@,
        "roman"@ != "alphabetic"@,
        "roman"@ != "ALPHABETIC"@,
        "ROMAN"@ != "alphabetic"@,
        "ROMAN"@ != "ALPHABETIC"@,
        "alphabetic"@ != "ALPHABETIC"@,
{
    reveal_strlit("01");
    reveal_strlit("a");
    reveal_strlit("A");
    reveal_strlit("i");
    reveal_strlit("I");
    reveal_strlit("decimalZero");
    reveal_strlit("lowerLetter");
    reveal_strlit("upperLetter");
    reveal_strlit("lowerRoman");
    reveal_strlit("upperRoman");
    reveal_strlit("decimal");
    reveal_strlit("roman");
    reveal_strlit("ROMAN");
    reveal_strlit("alphabetic");
    reveal_strlit("ALPHABETIC");
    assert("01"@.len() == 2);
    assert("a"@.len() == 1);
    assert("A"@.len() == 1);
    assert("i"@.len() == 1);
    assert("I"@.len() == 1);
    assert("decimalZero"@.len() == 11);
    assert("lowerLetter"@.len() == 11);
    assert("upperLetter"@.len() == 11);
    assert("lowerRoman"@.len() == 10);
    assert("upperRoman"@.len() == 10);
    assert("decimal"@.len() == 7);
    assert("roman"@.len() == 5);
    assert("ROMAN"@.len() == 5);
    assert("alphabetic"@.len() == 10);
    assert("ALPHABETIC"@.len() == 10);
    assert("a"@[0] != "A"@[0]);
    assert("a"@[0] != "i"@[0]);
    assert("a"@[0] != "I"@[0]);
    assert("A"@[0] != "i"@[0]);
    assert("A"@[0] != "I"@[0]);
    assert("i"@[0] != "I"@[0]);
    assert("decimalZero"@[0] != "lowerLetter"@[0]);
    assert("decimalZero"@[0] != "upperLetter"@[0]);
    assert("lowerLetter"@[0] != "upperLetter"@[0]);
    assert("lowerRoman"@[0] != "upperRoman"@[0]);
    assert("roman"@[0] != "ROMAN"@[0]);
    assert("alphabetic"@[0] != "ALPHABETIC"@[0]);
}

// -- Page setup --------------------------------------------------------------

/// A page has the size that its rule states, turned where it is flipped, and lies
/// across exactly where it is wider than it is high.
pub proof fn pages_have_their_size(
    g: SectGeom,
    facts: PageFacts,
    group: Seq<FlowItem>,
    sizes: Seq<PageSize>,
)
    requires
        is_geometry(g, facts, group, sizes),
        facts.width is Some,
        facts.height is Some,
    ensures
        !facts.flipped ==> g.page_w == twips(facts.width.unwrap() as int) && g.page_h == twips(
            facts.height.unwrap() as int,
        ),
        facts.flipped ==> g.page_w == twips(facts.height.unwrap() as int) && g.page_h == twips(
            facts.width.unwrap() as int,
        ),
        !facts.flipped ==> (g.landscape <==> facts.width.unwrap() > facts.height.unwrap()),
        facts.flipped ==> (g.landscape <==> facts.height.unwrap() > facts.width.unwrap()),
{
}

/// Margins that state a length have that length, each on its own side. Where they
/// alternate between facing pages, what the inside has over the outside is the
/// gutter.
pub proof fn margins_have_their_length(
    g: SectGeom,
    facts: PageFacts,
    group: Seq<FlowItem>,
    sizes: Seq<PageSize>,
    left: i64,
    right: i64,
    top: i64,
    bottom: i64,
)
    requires
        is_geometry(g, facts, group, sizes),
        facts.margin_left == Some(Rel { abs: left, ratio: 0 }),
        facts.margin_right == Some(Rel { abs: right, ratio: 0 }),
        facts.margin_top == Some(Rel { abs: top, ratio: 0 }),
        facts.margin_bottom == Some(Rel { abs: bottom, ratio: 0 }),
    ensures
        g.margin_top == twips(top as int),
        g.margin_bottom == twips(bottom as int),
        !facts.two_sided || twips(left as int) < twips(right as int) ==> {
            &&& g.margin_left == twips(left as int)
            &&& g.margin_right == twips(right as int)
            &&& g.gutter == 0
        },
        facts.two_sided && twips(left as int) >= twips(right as int) ==> {
            &&& g.margin_left == twips(right as int)
            &&& g.margin_right == twips(right as int)
            &&& twips(left as int) - twips(right as int) <= i32::MAX ==> g.margin_left + g.gutter
                == twips(left as int)
        },
        g.mirror_margins == facts.two_sided,
{
    let laid = pages_extent(group, sizes, group.len() as int);
    let size = page_size(facts, laid);
    shares_are_of_the_base(left, size.x);
    shares_are_of_the_base(right, size.x);
    shares_are_of_the_base(top, size.y);
    shares_are_of_the_base(bottom, size.y);
}

/// An automatic margin comes nearest to five forty-seconds of its reference length.
pub proof fn automatic_margins_are_a_share(reference: i64, axis: i64)
    requires
        0 <= reference <= 0x1000_0000_0000_0000,
    ensures
        -42 <= 2 * (42 * margin(None, reference, axis) - 5 * reference) <= 42,
{
    rounding_is_to_the_nearest(5 * reference, 42);
    let q = round_div(5 * reference, 42);
    assert(0 <= q <= 0x1000_0000_0000_0000) by (nonlinear_arith)
        requires
            q == (2 * (5 * reference) + 42) / 84,
            0 <= reference <= 0x1000_0000_0000_0000,
    ;
}

/// Headers and footers stand inside their margins: at their distance where it is
/// within the margin, and otherwise half an inch in at most.
pub proof fn bands_stand_inside_margins(band: i32, margin: i32)
    ensures
        band_in(band, margin) > 0,
        margin >= 2 ==> band_in(band, margin) < margin,
        0 < band < margin ==> band_in(band, margin) == band,
        !(0 < band < margin) ==> band_in(band, margin) <= 720,
{
}

/// What a page rule says goes over to its page setup: the columns, the numbering,
/// where the number stands, explicit headers and footers, the page color, and
/// hyphenation.
pub proof fn page_rules_go_over(
    g: SectGeom,
    facts: PageFacts,
    group: Seq<FlowItem>,
    sizes: Seq<PageSize>,
)
    requires
        is_geometry(g, facts, group, sizes),
    ensures
        g.columns == facts.columns,
        g.numbering == facts.numbering,
        g.number_in_header == facts.number_at_top,
        facts.header is Content ==> g.header == Some(facts.header->Content_0),
        !(facts.header is Content) ==> g.header is None,
        g.header_suppressed <==> facts.header is Suppressed,
        facts.footer is Content ==> g.footer == Some(facts.footer->Content_0),
        !(facts.footer is Content) ==> g.footer is None,
        g.footer_suppressed <==> facts.footer is Suppressed,
        g.background_color == facts.fill,
        facts.hyphenate is Some ==> g.hyphenate == facts.hyphenate.unwrap(),
        facts.hyphenate is None ==> g.hyphenate == facts.justify,
        g.background is Some <==> facts.background is Some && !facts.background.unwrap().empty,
        g.foreground is Some <==> facts.foreground is Some && !facts.foreground.unwrap().empty,
        g.line_numbers is Some <==> facts.line_numbering is Some,
        g.line_numbers is Some ==> {
            &&& g.line_numbers.unwrap().count_by == 1
            &&& g.line_numbers.unwrap().start == 1
            &&& facts.line_numbering.unwrap().scope is Document
                ==> g.line_numbers.unwrap().restart@ == "continuous"@
            &&& facts.line_numbering.unwrap().scope is Page
                ==> g.line_numbers.unwrap().restart@ == "newPage"@
        },
{
}

/// The page number stands on the side that its alignment names: left and right as
/// such, start and end in the reading order.
pub proof fn page_numbers_stand_on_their_side(ltr: bool)
    ensures
        number_jc_of(None, ltr) is None,
        number_jc_of(Some(HAlign::Center), ltr) == Some(Jc::Center),
        number_jc_of(Some(HAlign::Left), ltr) == Some(Jc::Start),
        number_jc_of(Some(HAlign::Right), ltr) == Some(Jc::End),
        number_jc_of(Some(HAlign::Start), ltr) == number_jc_of(
            if ltr {
                Some(HAlign::Left)
            } else {
                Some(HAlign::Right)
            },
            ltr,
        ),
        number_jc_of(Some(HAlign::End), ltr) == number_jc_of(
            if ltr {
                Some(HAlign::Right)
            } else {
                Some(HAlign::Left)
            },
            ltr,
        ),
        number_jc_of(Some(HAlign::Start), ltr) != number_jc_of(Some(HAlign::End), ltr),
{
}

/// A page run restarts page numbers at the first reset in it.
pub proof fn the_first_reset_counts(group: Seq<FlowItem>, from: int, k: int)
    requires
        0 <= from <= k < group.len(),
        page_reset(group[k]) is Some,
        forall|j: int| from <= j < k ==> page_reset(#[trigger] group[j]) is None,
    ensures
        first_reset(group, from) == page_reset(group[k]),
    decreases k - from,
{
    if from < k {
        assert(page_reset(group[from]) is None);
        the_first_reset_counts(group, from + 1, k);
    }
}

/// A page run without a reset restarts nothing.
pub proof fn without_a_reset_numbers_go_on(group: Seq<FlowItem>, from: int)
    requires
        0 <= from <= group.len(),
        forall|j: int| from <= j < group.len() ==> page_reset(#[trigger] group[j]) is None,
    ensures
        first_reset(group, from) is None,
    decreases group.len() - from,
{
    if from < group.len() {
        assert(page_reset(group[from]) is None);
        without_a_reset_numbers_go_on(group, from + 1);
    }
}

/// Where all content of a page run is centered or at the bottom, so are its pages;
/// where it starts at the top, or where content disagrees, nothing is stated.
pub proof fn common_alignments_show(group: Seq<FlowItem>)
    ensures
        common_valign(group) == Some(VAlign::Center) ==> forall|i: int|
            0 <= i < group.len() && !(group[i].kind is Tag) ==> (
            #[trigger] group[i]).align_y is Center,
        common_valign(group) == Some(VAlign::Bottom) ==> forall|i: int|
            0 <= i < group.len() && !(group[i].kind is Tag) ==> (
            #[trigger] group[i]).align_y is End,
        common_valign(group) != Some(VAlign::Top),
        (forall|i: int|
            0 <= i < group.len() ==> (#[trigger] group[i]).align_y is Center && !(
            group[i].kind is Tag)) && group.len() > 0 ==> common_valign(group) == Some(
            VAlign::Center,
        ),
        (forall|i: int|
            0 <= i < group.len() ==> (#[trigger] group[i]).align_y is End && !(
            group[i].kind is Tag)) && group.len() > 0 ==> common_valign(group) == Some(
            VAlign::Bottom,
        ),
{
    let keep = |item: FlowItem| !item.is_tag();
    let content = group.filter(keep);
    assert forall|i: int| 0 <= i < group.len() && !(group[i].kind is Tag) implies content.contains(
        #[trigger] group[i],
    ) by {
        group.lemma_filter_contains(keep, i);
    }
    assert forall|i: int| 0 <= i < content.len() implies group.contains(#[trigger] content[i]) by {
        group.lemma_filter_contains_rev(keep, content[i]);
    }
    if group.len() > 0 && !(group[0].kind is Tag) {
        assert(content.contains(group[0]));
    }
}

/// The extent of the pages of a run holds every one of them.
pub proof fn extents_hold_their_pages(
    group: Seq<FlowItem>,
    sizes: Seq<PageSize>,
    n: int,
    i: int,
)
    requires
        0 <= i < n <= group.len(),
        item_page_size(group[i], sizes) is Some,
    ensures
        pages_extent(group, sizes, n) is Some,
        pages_extent(group, sizes, n).unwrap().x >= item_page_size(group[i], sizes).unwrap().x,
        pages_extent(group, sizes, n).unwrap().y >= item_page_size(group[i], sizes).unwrap().y,
    decreases n,
{
    if i < n - 1 {
        extents_hold_their_pages(group, sizes, n - 1, i);
    }
}

/// A page whose width or height follows its content is as wide or as high as the
/// pages of its run were laid out, and A4 where that is not known.
pub proof fn automatic_sizes_follow_the_layout(facts: PageFacts, laid: Option<PageSize>)
    requires
        !facts.flipped,
    ensures
        facts.width is Some ==> page_size(facts, laid).x == facts.width.unwrap(),
        facts.height is Some ==> page_size(facts, laid).y == facts.height.unwrap(),
        facts.width is None && laid is Some ==> page_size(facts, laid).x == laid.unwrap().x,
        facts.height is None && laid is Some ==> page_size(facts, laid).y == laid.unwrap().y,
        facts.width is None && laid is None ==> page_size(facts, laid).x == 595_275_591,
        facts.height is None && laid is None ==> page_size(facts, laid).y == 841_889_764,
{
}

/// A header or footer that was moved by its height still starts inside the margin.
pub proof fn adjusted_bands_stand_inside_margins(band: i32, margin: i32, height: i32)
    ensures
        adjusted_band(band, margin, height) >= 1,
        margin >= 2 ==> adjusted_band(band, margin, height) < margin,
        1 <= band - height < margin ==> adjusted_band(band, margin, height) == band - height,
{
}

// -- Page numbers ------------------------------------------------------------

/// Page numbers have the format that shows one and four alike.
pub proof fn page_numbers_have_their_format(one: Seq<char>, four: Seq<char>)
    ensures
        one == "i"@ && four == "iv"@ <==> format_of(one, four) == "lowerRoman"@,
        one == "I"@ && four == "IV"@ <==> format_of(one, four) == "upperRoman"@,
        one == "a"@ && four == "d"@ <==> format_of(one, four) == "lowerLetter"@,
        one == "A"@ && four == "D"@ <==> format_of(one, four) == "upperLetter"@,
        one == "01"@ && four == "04"@ <==> format_of(one, four) == "decimalZero"@,
        one == "1"@ && four == "4"@ ==> format_of(one, four) == "decimal"@,
{
    number_words();
    reveal_strlit("1");
    assert("1"@.len() == 1 && "1"@[0] != "a"@[0] && "1"@[0] != "A"@[0] && "1"@[0] != "i"@[0]
        && "1"@[0] != "I"@[0]) by {
        reveal_strlit("a");
        reveal_strlit("A");
        reveal_strlit("i");
        reveal_strlit("I");
    }
    reveal_strlit("01");
    assert("01"@.len() == 2);
}

/// Roman and alphabetic page numbers ask for their format in their field, in their
/// case; decimal ones need not.
pub proof fn page_fields_ask_for_their_format()
    ensures
        format_switch("lowerRoman"@) == Some("roman"@),
        format_switch("upperRoman"@) == Some("ROMAN"@),
        format_switch("lowerLetter"@) == Some("alphabetic"@),
        format_switch("upperLetter"@) == Some("ALPHABETIC"@),
        format_switch("decimal"@) is None,
        format_switch("decimalZero"@) is None,
{
    number_words();
}

/// The first place of a page number counts pages and any other one tells their
/// total.
pub proof fn first_places_count_pages(numbering: PageNumbering, k: int)
    ensures
        kth_format(numbering, k) == "decimal"@ ==> place_instruction(numbering, k) == (if k == 0 {
            " "@ + "PAGE"@ + " "@
        } else {
            " "@ + "NUMPAGES"@ + " "@
        }),
        kth_format(numbering, k) == "lowerRoman"@ ==> place_instruction(numbering, k) == (if k
            == 0 {
            " "@ + "PAGE"@ + " \\* "@ + "roman"@ + " "@
        } else {
            " "@ + "NUMPAGES"@ + " \\* "@ + "roman"@ + " "@
        }),
        kth_format(numbering, k) == "upperRoman"@ ==> place_instruction(numbering, k) == (if k
            == 0 {
            " "@ + "PAGE"@ + " \\* "@ + "ROMAN"@ + " "@
        } else {
            " "@ + "NUMPAGES"@ + " \\* "@ + "ROMAN"@ + " "@
        }),
        kth_format(numbering, k) == "lowerLetter"@ ==> place_instruction(numbering, k) == (if k
            == 0 {
            " "@ + "PAGE"@ + " \\* "@ + "alphabetic"@ + " "@
        } else {
            " "@ + "NUMPAGES"@ + " \\* "@ + "alphabetic"@ + " "@
        }),
        kth_format(numbering, k) == "upperLetter"@ ==> place_instruction(numbering, k) == (if k
            == 0 {
            " "@ + "PAGE"@ + " \\* "@ + "ALPHABETIC"@ + " "@
        } else {
            " "@ + "NUMPAGES"@ + " \\* "@ + "ALPHABETIC"@ + " "@
        }),
{
    page_fields_ask_for_their_format();
}

/// Whether an item is a field.
pub open spec fn is_field(item: NumberItem) -> bool {
    item is Field
}

proof fn lemma_fields(numbering: PageNumbering, pattern: NumberPattern, n: int)
    requires
        0 <= n <= pattern.pieces@.len(),
    ensures
        number_items(numbering, pattern, n).filter(|i: NumberItem| is_field(i)).len() == n,
        n > 0 ==> number_items(numbering, pattern, n).last() == NumberItem::Field(
            place_instruction(numbering, n - 1),
        ),
    decreases n,
{
    reveal(Seq::filter);
    let f = |i: NumberItem| is_field(i);
    if n > 0 {
        lemma_fields(numbering, pattern, n - 1);
        let before = number_items(numbering, pattern, n - 1);
        let prefix = pattern.pieces@[n - 1].prefix@;
        let led = if prefix.len() > 0 {
            before.push(NumberItem::Literal(prefix))
        } else {
            before
        };
        let all = number_items(numbering, pattern, n);
        assert(all.drop_last() =~= led);
        if prefix.len() > 0 {
            assert(led.drop_last() =~= before);
            assert(!f(led.last()));
            assert(led.filter(f) == before.filter(f));
        }
        assert(f(all.last()));
        assert(all.filter(f) == led.filter(f).push(all.last()));
    }
}

/// A page number has one field for each place of a pattern with several, ends in
/// the pattern's suffix where it has one, and otherwise just counts pages.
pub proof fn page_numbers_have_a_field_for_each_place(numbering: Option<PageNumbering>)
    ensures
        numbering is None ==> page_number_items(numbering) =~= seq![
            NumberItem::Field(" PAGE "@),
        ],
        numbering == Some(PageNumbering::Function) ==> page_number_items(numbering) =~= seq![
            NumberItem::Field(" PAGE "@),
        ],
        numbering is Some && numbering.unwrap() is Pattern ==> {
            let pattern = numbering.unwrap()->Pattern_0;
            &&& pattern.pieces@.len() < 2 ==> page_number_items(numbering) =~= seq![
                NumberItem::Field(" PAGE "@),
            ]
            &&& pattern.pieces@.len() >= 2 ==> page_number_items(numbering).filter(
                |i: NumberItem| is_field(i),
            ).len() == pattern.pieces@.len()
            &&& pattern.pieces@.len() >= 2 && pattern.suffix@.len() > 0 ==> page_number_items(
                numbering,
            ).last() == NumberItem::Literal(pattern.suffix@)
            &&& pattern.pieces@.len() >= 2 && pattern.suffix@.len() == 0 ==> page_number_items(
                numbering,
            ).last() is Field
        },
{
    reveal(Seq::filter);
    if numbering is Some && numbering.unwrap() is Pattern {
        let pattern = numbering.unwrap()->Pattern_0;
        if pattern.pieces@.len() >= 2 {
            lemma_fields(numbering.unwrap(), pattern, pattern.pieces@.len() as int);
            let all = number_items(numbering.unwrap(), pattern, pattern.pieces@.len() as int);
            if pattern.suffix@.len() > 0 {
                assert(page_number_items(numbering).drop_last() =~= all);
            }
        }
    }
}

/// A literal update of the page counter is a reset to that number; nothing else is.
pub proof fn literal_updates_reset_page_numbers(item: FlowItem, n: i64)
    ensures
        page_reset(item) == Some(n) <==> item.kind is Tag && item.kind->Tag_0 is Start
            && item.kind->Tag_0->elem == TagElem::PageReset(n),
{
}

/// A section states page-number settings exactly where it is numbered or restarts
/// the count: the format of its numbering's first place, decimal without one, and
/// the number that it restarts at.
pub proof fn numbered_sections_say_so(numbering: Option<PageNumbering>, start: Option<i64>)
    ensures
        page_number_settings(numbering, start) is Some <==> numbering is Some || start is Some,
        page_number_settings(numbering, start) is Some ==> page_number_settings(
            numbering,
            start,
        ).unwrap().1 == start,
        numbering is None && start is Some ==> page_number_settings(numbering, start).unwrap().0
            == "decimal"@,
        numbering is Some ==> page_number_settings(numbering, start).unwrap().0 == kth_format(
            numbering.unwrap(),
            0,
        ),
{
}

/// The part of a header or a footer is related as what it is, inside the package.
pub proof fn furniture_is_related_as_what_it_is(name: Seq<char>)
    ensures
        part_rel(FurnitureSlot::Header, name).ty
            == "http://schemas.openxmlformats.org/officeDocument/2006/relationships/header"@,
        part_rel(FurnitureSlot::Footer, name).ty
            == "http://schemas.openxmlformats.org/officeDocument/2006/relationships/footer"@,
        part_rel(FurnitureSlot::Header, name).target == name,
        part_rel(FurnitureSlot::Footer, name).target == name,
        part_rel(FurnitureSlot::Header, name).mode == RelMode::Internal,
        part_rel(FurnitureSlot::Footer, name).mode == RelMode::Internal,
{
}

} // verus!
