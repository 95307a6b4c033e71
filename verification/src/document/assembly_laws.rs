//! How the sections of a document are joined to its body.

use vstd::prelude::*;

use crate::convert::breaks::{Piece, break_pieces};
use crate::document::assembly::{
    SectionContent, all_footers, all_headers, background_normalized, default_white, joined, kept,
    steps_of,
};
use crate::document::embedding::{Permission, allowed, slot, slot_of};
use crate::document::page_blocks::{
    aligned, column_width, furniture_jc, has_page_field, with_geometry,
};
use crate::document::geometry::{ContentId, HAlign, SectGeom};
use crate::document::sections::SectionRun;
use crate::ctx::state::DocxCtx;
use crate::dom::{EmbeddedFontStyle, Jc};
use crate::props::FlowLook;

verus! {

// -- Joining sections --------------------------------------------------------

/// Whether a piece is a section break.
pub open spec fn ends_section(p: Piece) -> bool {
    p is Kept && p->Kept_0 is SectionBreak
}

/// Section `n` adds to the body: the page breaks that lead it, its blocks, and,
/// unless it is the last, a section break with its own properties, which starts the
/// way the section before it ended.
pub proof fn sections_join_in_order(
    sections: Seq<SectionRun>,
    lowered: Seq<SectionContent>,
    n: int,
)
    requires
        0 <= n < lowered.len(),
        lowered.len() <= sections.len(),
    ensures
        ({
            let before = joined(sections, lowered, n);
            let after = joined(sections, lowered, n + 1);
            let lead = sections[n].leading_pagebreaks as int;
            let blocks = lowered[n].blocks@;
            let last = n + 1 == lowered.len();
            &&& after.len() == before.len() + lead + blocks.len() + if last {
                0int
            } else {
                1
            }
            &&& after.take(before.len() as int) =~= before
            &&& forall|i: int|
                0 <= i < lead ==> (#[trigger] after[before.len() + i]) is Break && !(
                after[before.len() + i]->flagged)
            &&& forall|i: int|
                #![trigger blocks[i]]
                0 <= i < blocks.len() ==> after[before.len() + lead + i] == Piece::Kept(blocks[i])
            &&& !last ==> {
                let end = after.last();
                &&& ends_section(end)
                &&& end->Kept_0->SectionBreak_0.sect_type == (if n > 0 {
                    sections[n - 1].break_after
                } else {
                    None
                })
                &&& end->Kept_0->SectionBreak_0.page_w == lowered[n].sect.page_w
                &&& end->Kept_0->SectionBreak_0.page_h == lowered[n].sect.page_h
                &&& end->Kept_0->SectionBreak_0.headers == lowered[n].sect.headers
                &&& end->Kept_0->SectionBreak_0.footers == lowered[n].sect.footers
                &&& end->Kept_0->SectionBreak_0.columns == lowered[n].sect.columns
                &&& end->Kept_0->SectionBreak_0.pg_num == lowered[n].sect.pg_num
            }
        }),
{
    let before = joined(sections, lowered, n);
    let lead = break_pieces(sections[n].leading_pagebreaks as nat, false);
    let blocks = kept(lowered[n].blocks@);
    let all = before + lead + blocks;
    let after = joined(sections, lowered, n + 1);
    assert(after.take(all.len() as int) =~= all);
    assert forall|i: int| 0 <= i < sections[n].leading_pagebreaks implies (
    #[trigger] after[before.len() + i]) is Break && !(after[before.len() + i]->flagged) by {
        assert(after[before.len() + i] == all[before.len() + i]);
        assert(all[before.len() + i] == lead[i]);
    }
    assert forall|i: int|
        #![trigger lowered[n].blocks@[i]]
        0 <= i < lowered[n].blocks@.len() implies after[before.len()
        + sections[n].leading_pagebreaks + i] == Piece::Kept(lowered[n].blocks@[i]) by {
        assert(after[before.len() + sections[n].leading_pagebreaks + i] == all[before.len()
            + sections[n].leading_pagebreaks + i]);
        assert(all[before.len() + sections[n].leading_pagebreaks + i] == blocks[i]);
    }
}

/// The headers and the footers of the sections are collected in order, each with
/// its kind.
pub proof fn headers_and_footers_are_collected(lowered: Seq<SectionContent>)
    requires
        lowered.len() > 0,
    ensures
        all_headers(lowered) == all_headers(lowered.drop_last()) + lowered.last().headers@,
        all_footers(lowered) == all_footers(lowered.drop_last()) + lowered.last().footers@,
        all_headers(Seq::<SectionContent>::empty()).len() == 0,
        all_footers(Seq::<SectionContent>::empty()).len() == 0,
{
}

/// A section in white states no page color, and one in another color keeps it. A
/// white section behind a colored one that would show the other's header gets an
/// empty one instead; nothing else changes.
pub proof fn white_sections_have_no_color(sections: Seq<SectionRun>, i: int, empty: ContentId)
    requires
        0 <= i < sections.len(),
    ensures
        ({
            let old = sections[i].geom;
            let new = background_normalized(sections, i, empty);
            let white = old.background_color is None || old.background_color.unwrap()@ == seq![
                255u8,
                255u8,
                255u8,
            ];
            &&& new.start == sections[i].start
            &&& new.end == sections[i].end
            &&& new.break_after == sections[i].break_after
            &&& white ==> new.geom.background_color is None
            &&& !white ==> new.geom == old
            &&& old.header is Some ==> new.geom.header == old.header
            &&& white && i > 0 && old.header is None && old.background is None
                && old.foreground is None && !default_white(
                sections[i - 1].geom.background_color,
            ) ==> new.geom.header == Some(empty)
            &&& i == 0 ==> new.geom.header == old.header
            &&& new.geom.footer == old.footer
            &&& new.geom.page_w == old.page_w
            &&& new.geom.columns == old.columns
        }),
{
    let white = [255u8, 255u8, 255u8];
    assert(white@ =~= seq![255u8, 255u8, 255u8]);
    let c = sections[i].geom.background_color;
    if c is Some && c.unwrap()@ == seq![255u8, 255u8, 255u8] {
        assert(c.unwrap() =~= white);
    }
}

// -- Room for content --------------------------------------------------------

/// The columns of a text area and the gaps between them fit into it, and no wider
/// ones would.
pub proof fn columns_fit_their_text_area(content: int, columns: u32, gutter: i32)
    requires
        columns >= 1,
        gutter >= 0,
        content - gutter * (columns - 1) >= columns,
    ensures
        columns * column_width(content, columns, gutter) + gutter * (columns - 1) <= content,
        content < columns * (column_width(content, columns, gutter) + 1) + gutter * (columns - 1),
{
    let n = columns as int;
    let rest = content - gutter * (n - 1);
    let w = column_width(content, columns, gutter);
    assert(w == rest / n);
    assert(n * (rest / n) <= rest && rest < n * (rest / n + 1)) by (nonlinear_arith)
        requires
            n >= 1,
    ;
}

/// Content has the width of a column and the height between the margins.
pub proof fn content_fits_the_page(ctx: DocxCtx, g: SectGeom)
    requires
        g.page_w - g.margin_left - g.margin_right > 0,
        g.page_h - g.margin_top - g.margin_bottom > 0,
        g.page_h > 0,
        g.columns <= 1,
    ensures
        with_geometry(ctx, g).page_content_width == (g.page_w - g.margin_left - g.margin_right)
            * 50_000,
        with_geometry(ctx, g).available_width == (g.page_w - g.margin_left - g.margin_right)
            * 50_000,
        with_geometry(ctx, g).available_height == (g.page_h - g.margin_top - g.margin_bottom)
            * 50_000,
        with_geometry(ctx, g).raster_height == g.page_h * 50_000,
{
    let width = g.page_w - g.margin_left - g.margin_right;
    let gap = if g.col_space < 0 {
        0
    } else {
        g.col_space as int
    };
    let n = if g.columns < 1 {
        1
    } else {
        g.columns as int
    };
    assert(n == 1);
    assert(gap * (n - 1) == 0) by (nonlinear_arith)
        requires
            n == 1,
    ;
    assert((width - gap * (n - 1)) / n == width);
    assert(column_width(width, g.columns, g.col_space) == width);
}

/// A paragraph of page furniture keeps its own alignment; one without has that of
/// the whole, and one with a page number that of the number.
pub proof fn furniture_is_aligned(block: FlowLook, whole: Option<Jc>, counter: Option<Jc>)
    ensures
        !(block is Para) ==> aligned(block, whole, counter) == block,
        block is Para ==> {
            let old = block->Para_props;
            let new = aligned(block, whole, counter)->Para_props;
            &&& aligned(block, whole, counter) is Para
            &&& aligned(block, whole, counter)->Para_content == block->Para_content
            &&& old.jc is Some ==> new.jc == old.jc
            &&& old.jc is None && whole is Some ==> new.jc == whole
            &&& old.jc is None && whole is None && has_page_field(block->Para_content) ==> new.jc
                == counter
            &&& old.jc is None && whole is None && !has_page_field(block->Para_content)
                ==> new.jc is None
            &&& new.style == old.style
            &&& new.spacing == old.spacing
        },
{
}

// -- Embedded fonts ----------------------------------------------------------

/// A face fills the slot of its weight and slant, and the four slots are those of
/// the four combinations.
pub proof fn faces_fill_their_slot(weight: u16)
    ensures
        weight < 600 ==> slot_of(weight, true) == EmbeddedFontStyle::Regular,
        weight >= 600 ==> slot_of(weight, true) == EmbeddedFontStyle::Bold,
        weight < 600 ==> slot_of(weight, false) == EmbeddedFontStyle::Italic,
        weight >= 600 ==> slot_of(weight, false) == EmbeddedFontStyle::BoldItalic,
        slot(0) == EmbeddedFontStyle::Regular,
        slot(1) == EmbeddedFontStyle::Bold,
        slot(2) == EmbeddedFontStyle::Italic,
        slot(3) == EmbeddedFontStyle::BoldItalic,
{
}

/// A font may be embedded only if its outlines may and it is installable or
/// editable; without rights it may not.
pub proof fn rights_decide_on_embedding(outlines: bool, permission: Option<Permission>)
    ensures
        !allowed(None),
        allowed(Some((outlines, permission))) <==> outlines && permission is Some && (
        permission.unwrap() is Installable || permission.unwrap() is Editable),
{
}

// -- What is lowered ---------------------------------------------------------

/// Each of several sections is lowered by itself, with its own page setup and
/// content; a single one, or none, is the whole flow.
pub proof fn every_section_is_lowered(
    sections: Seq<SectionRun>,
    fallback: SectGeom,
    total: usize,
)
    ensures
        sections.len() > 1 ==> steps_of(sections, fallback, total).len() == sections.len(),
        sections.len() > 1 ==> forall|i: int|
            #![trigger sections[i]]
            0 <= i < sections.len() ==> {
                let step = steps_of(sections, fallback, total)[i];
                &&& step.geom == sections[i].geom
                &&& step.start == sections[i].start
                &&& step.end == sections[i].end
            },
        sections.len() <= 1 ==> {
            let steps = steps_of(sections, fallback, total);
            &&& steps.len() == 1
            &&& steps[0].start == 0
            &&& steps[0].end == total
            &&& sections.len() == 1 ==> steps[0].geom == sections[0].geom
            &&& sections.len() == 0 ==> steps[0].geom == fallback
        },
{
}

/// Furniture is justified to the side that its alignment names.
pub proof fn furniture_stands_on_its_side()
    ensures
        furniture_jc(None) is None,
        furniture_jc(Some(HAlign::Center)) == Some(Jc::Center),
        furniture_jc(Some(HAlign::Left)) == Some(Jc::Start),
        furniture_jc(Some(HAlign::Start)) == Some(Jc::Start),
        furniture_jc(Some(HAlign::Right)) == Some(Jc::End),
        furniture_jc(Some(HAlign::End)) == Some(Jc::End),
{
}

} // verus!
