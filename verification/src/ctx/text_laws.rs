//! Which font a character gets, where a reference splits its text, and where
//! relationships go.

use vstd::prelude::*;

use crate::ctx::bookmarks::{is_number_reference, number_start};
use crate::ctx::fonts::{Fallback, Family, font_at, font_spans, renderer, renders, stretches};
use crate::ctx::lists::{heading_look, numbers_noted};
use crate::ctx::scope::{active_table, in_height, in_raw, raw_recorded, web_rel, width_dxa};
use crate::ctx::state::{DocxCtx, RawRange, hdrftr_name};
use crate::convert::overlay::{end_tab, is_fill_tab, with_fill_tab};
use crate::dom::{Run, TabAlign, TabStop};
use crate::fallback::layout::image_rel;
use crate::props::{FlowLook, RunLook};
use crate::rels::RelMode;
use crate::text::dec;

verus! {

// -- Fonts -------------------------------------------------------------------

proof fn lemma_renderer(families: Seq<Family>, k: int, i: int)
    requires
        0 <= i <= families.len(),
    ensures
        i <= renderer(families, k, i) <= families.len(),
        forall|j: int|
            i <= j < renderer(families, k, i) ==> !((#[trigger] families[j]).available && renders(
                families[j],
                k,
            )),
        renderer(families, k, i) < families.len() ==> families[renderer(
            families,
            k,
            i,
        )].available && renders(families[renderer(families, k, i)], k),
    decreases families.len() - i,
{
    if i < families.len() && !(families[i].available && renders(families[i], k)) {
        lemma_renderer(families, k, i + 1);
    }
}

/// A character is in the first available family that has a glyph for it and admits
/// it. Without one it is in its own fallback font, and without that in the leading
/// one.
pub proof fn characters_are_in_the_first_font_that_renders_them(
    families: Seq<Family>,
    fallback: Fallback,
    lead: Seq<char>,
    k: int,
    i: int,
)
    requires
        0 <= i <= families.len(),
        forall|j: int|
            0 <= j < i ==> !((#[trigger] families[j]).available && families[j].has_glyph@[k]
                && families[j].admits@[k]),
        i < families.len() ==> families[i].available && families[i].has_glyph@[k]
            && families[i].admits@[k],
    ensures
        i < families.len() ==> font_at(families, fallback, lead, k) == families[i].name@,
        i == families.len() && fallback.enabled && fallback.single@[k] is Some ==> font_at(
            families,
            fallback,
            lead,
            k,
        ) == fallback.single@[k]->0@,
        i == families.len() && (!fallback.enabled || fallback.single@[k] is None) ==> font_at(
            families,
            fallback,
            lead,
            k,
        ) == lead,
{
    lemma_renderer(families, k, 0);
    let at = renderer(families, k, 0);
    if at < i {
        assert(!(families[at].available && renders(families[at], k)));
    }
    if i < at {
        assert(!(families[i].available && renders(families[i], k)));
    }
}

/// Text is cut into stretches only where the font changes: the last stretch is in
/// the font of the last character and goes on as long as that font does.
pub proof fn stretches_end_where_fonts_change(
    text: Seq<char>,
    families: Seq<Family>,
    fallback: Fallback,
    lead: Seq<char>,
    n: int,
)
    requires
        0 < n <= text.len(),
    ensures
        ({
            let s = stretches(text, families, fallback, lead, n);
            &&& s.len() > 0
            &&& s.last().font == font_at(families, fallback, lead, n - 1)
            &&& s.last().text.len() > 0
            &&& s.last().text.last() == text[n - 1]
            &&& forall|i: int| 0 < i < s.len() ==> (#[trigger] s[i]).font != s[i - 1].font
        }),
    decreases n,
{
    let before = stretches(text, families, fallback, lead, n - 1);
    let s = stretches(text, families, fallback, lead, n);
    if n > 1 {
        stretches_end_where_fonts_change(text, families, fallback, lead, n - 1);
    }
    assert forall|i: int| 0 < i < s.len() implies (#[trigger] s[i]).font != s[i - 1].font by {
        if i < before.len() {
            assert(before[i].font != before[i - 1].font);
        }
    }
}

/// Without families, text stays in one stretch without a font of its own.
pub proof fn text_without_families_stays_whole(text: Seq<char>, fallback: Fallback)
    ensures
        font_spans(text, Seq::empty(), fallback).len() == 1,
        font_spans(text, Seq::empty(), fallback)[0].text == text,
        font_spans(text, Seq::empty(), fallback)[0].font.len() == 0,
{
}

// -- References --------------------------------------------------------------

/// The number in a reference is what stands behind its last space, wide or not.
pub proof fn numbers_stand_behind_the_last_space(text: Seq<char>)
    ensures
        0 <= number_start(text) <= text.len(),
        forall|i: int|
            number_start(text) <= i < text.len() ==> (#[trigger] text[i]) != ' ' && text[i]
                != '\u{a0}',
        number_start(text) > 0 ==> text[number_start(text) - 1] == ' ' || text[number_start(text)
            - 1] == '\u{a0}',
    decreases text.len(),
{
    if text.len() > 0 && text.last() != ' ' && text.last() != '\u{a0}' {
        let rest = text.drop_last();
        numbers_stand_behind_the_last_space(rest);
        assert forall|i: int| number_start(text) <= i < text.len() implies (#[trigger] text[i])
            != ' ' && text[i] != '\u{a0}' by {
            if i < rest.len() {
                assert(rest[i] == text[i]);
            }
        }
        if number_start(text) > 0 {
            assert(rest[number_start(text) - 1] == text[number_start(text) - 1]);
        }
    }
}

/// A reference to a number ends in a live field that refers to its bookmark.
pub proof fn number_references_are_live_fields(runs: Seq<Run>, out: Seq<Run>, name: Seq<char>)
    requires
        is_number_reference(runs, out, name),
    ensures
        out.len() > 0,
        out.last() is Field,
        out.last()->Field_0.instr@ == " REF "@ + name + " \\h "@,
        out.last()->Field_0.mode is Live,
        out.last()->Field_0.display is Visible,
        out.last()->Field_0.cache_status is Resolved,
{
}

// -- Relationships, raw text, tab stops --------------------------------------

/// A relationship belongs to the part being written: a part of its own first, then
/// a footnote, then a comment, and otherwise the document.
pub proof fn relationships_belong_to_the_part_being_written(ctx: DocxCtx)
    ensures
        ctx.part_rels is Some ==> active_table(ctx) == ctx.part_rels.unwrap()@,
        ctx.part_rels is None && ctx.in_footnote ==> active_table(ctx) == ctx.footnote_rels@,
        ctx.part_rels is None && !ctx.in_footnote && ctx.in_comment ==> active_table(ctx)
            == ctx.comment_rels@,
        ctx.part_rels is None && !ctx.in_footnote && !ctx.in_comment ==> active_table(ctx)
            == ctx.doc_rels@,
{
}

/// Headers and footers are named apart.
pub proof fn headers_and_footers_are_named_apart(n: u32)
    ensures
        hdrftr_name(true, n) == "header"@ + dec(n as int) + ".xml"@,
        hdrftr_name(false, n) == "footer"@ + dec(n as int) + ".xml"@,
{
}

/// What was recorded as raw is raw, whole or in part, in its own file only.
pub proof fn recorded_ranges_are_raw(known: Seq<RawRange>, r: RawRange, part: RawRange)
    requires
        r.start < r.end,
        part.file == r.file,
        r.start <= part.start,
        part.end <= r.end,
    ensures
        in_raw(raw_recorded(known, Some(r)), Some(part)),
        raw_recorded(raw_recorded(known, Some(r)), Some(r)) == raw_recorded(known, Some(r)),
        raw_recorded(known, None) == known,
        !in_raw(known, None),
        known.len() == 0 ==> !in_raw(known, Some(part)),
{
    let after = raw_recorded(known, Some(r));
    if known.contains(r) {
        let i = known.index_of(r);
        assert(after[i] == r);
    } else {
        assert(after[known.len() as int] == r);
        assert(after.contains(r));
    }
}

/// A width in twips is never zero.
pub proof fn widths_are_positive(width: i64)
    ensures
        width_dxa(width) >= 1,
{
}

/// A paragraph that fills its line has a tab stop at the end of the text area,
/// unless it has one at the end already; other paragraphs keep their tab stops.
pub proof fn filled_lines_end_at_the_margin(block: FlowLook, width: i32, tabs: Seq<TabStop>)
    ensures
        width > 0 ==> exists|i: int|
            0 <= i < end_tab(tabs, width).len() && (#[trigger] end_tab(tabs, width)[i]).val
                == TabAlign::End,
        width <= 0 ==> end_tab(tabs, width) == tabs,
        tabs.is_prefix_of(end_tab(tabs, width)),
        end_tab(tabs, width).len() > tabs.len() ==> end_tab(tabs, width).last().pos == width,
        !(block is Para) ==> with_fill_tab(block, width) == block,
        block is Para && (forall|i: int|
            0 <= i < block->Para_content.len() ==> !is_fill_tab(
                #[trigger] block->Para_content[i],
            )) ==> with_fill_tab(block, width) == block,
        block is Para && (exists|i: int|
            0 <= i < block->Para_content.len() && is_fill_tab(#[trigger] block->Para_content[i]))
            ==> with_fill_tab(block, width)->Para_props.tabs == end_tab(
            block->Para_props.tabs,
            width,
        ),
{
    if width > 0 {
        if exists|i: int| 0 <= i < tabs.len() && (#[trigger] tabs[i]).val == TabAlign::End {
            let i = choose|i: int|
                0 <= i < tabs.len() && (#[trigger] tabs[i]).val == TabAlign::End;
            assert(end_tab(tabs, width)[i].val == TabAlign::End);
        } else {
            assert(end_tab(tabs, width)[tabs.len() as int].val == TabAlign::End);
        }
    }
}

// -- Headings ----------------------------------------------------------------

/// A heading hands its font, weight, slant, color and size to its style, and
/// nothing else.
pub proof fn headings_hand_on_their_look(p: RunLook)
    ensures
        heading_look(p).font == p.font,
        heading_look(p).bold == p.bold,
        heading_look(p).italic == p.italic,
        heading_look(p).color == p.color,
        heading_look(p).size_half_pt == p.size_half_pt,
        heading_look(p).underline is None,
        heading_look(p).highlight is None,
        heading_look(p).lang is None,
        heading_look(p).style is None,
        !heading_look(p).strike,
        !heading_look(p).caps,
{
}

/// The number of a heading stands for its level until the next one; deeper numbers
/// are forgotten and shallower ones stay.
pub proof fn deeper_numbers_are_forgotten(
    before: Seq<Option<String>>,
    after: Seq<Option<String>>,
    level: int,
    number: String,
)
    requires
        numbers_noted(before, after, level, number),
        0 <= level,
    ensures
        level < after.len(),
        after[level] == Some(number),
        forall|i: int|
            0 <= i < level && i < before.len() ==> #[trigger] after[i] == before[i],
        forall|i: int| level < i < after.len() ==> (#[trigger] after[i]) is None,
{
}

/// A web address is an outside target, and an image an inside one, below the folder
/// of the document.
pub proof fn targets_are_outside_or_inside(url: Seq<char>, rest: Seq<char>)
    ensures
        web_rel(url).ty
            == "http://schemas.openxmlformats.org/officeDocument/2006/relationships/hyperlink"@,
        web_rel(url).target == url,
        web_rel(url).mode == RelMode::External,
        image_rel("word/"@ + rest).ty
            == "http://schemas.openxmlformats.org/officeDocument/2006/relationships/image"@,
        image_rel("word/"@ + rest).target == rest,
        image_rel("word/"@ + rest).mode == RelMode::Internal,
{
    reveal_strlit("word/");
    let p = "word/"@;
    assert((p + rest).subrange(0, 5) =~= p);
    assert((p + rest).subrange(5, (p + rest).len() as int) =~= rest);
}

/// Inside a scope of a height, relative heights are of that height, and drawings are
/// bounded by it; without a positive height they have nothing to refer to.
pub proof fn heights_are_of_their_scope(ctx: DocxCtx, base: Option<i64>)
    ensures
        base is Some && base.unwrap() > 0 ==> in_height(ctx, base).shape_height_base == base
            && in_height(ctx, base).raster_height == base.unwrap(),
        base is None || base.unwrap() <= 0 ==> in_height(ctx, base).shape_height_base is None
            && in_height(ctx, base).raster_height == ctx.raster_height,
        in_height(ctx, base).available_width == ctx.available_width,
{
}

} // verus!
