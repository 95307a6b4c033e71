//! Header and footer parts, and the section properties that refer to them.

use vstd::prelude::*;

use crate::ctx::state::{DocxCtx, REL_FOOTER, REL_HEADER, hdrftr_name};
use crate::document::furniture::{
    FurniturePlan, FurnitureRefPlan, FurnitureSlot, LoweredFurniture, adjust_furniture_band,
    adjusted_band, all_high, content_height, furniture_content_height, shows_nothing,
    uniform_single_line_furniture_height,
};
use crate::document::geometry::SectGeom;
use crate::document::inventory::{blocks_text_chars, text_chars_at};
use crate::document::page_numbers::{
    PageNumbering, are_number_items, kth_format, numbering_fmt, page_number_items,
    page_number_para,
};
use crate::document::tags::{blocks_tags, collect_tags};
use crate::dom::{Block, HdrFtrPart, HdrFtrRef, Jc, Para, PgNumType, SectPr, Tag};
use crate::fxmap::fx_set_insert;
use crate::props::{FlowLook, ParaLook, flow_look, plain_para};
use crate::rels::{RelMode, RelSpec, Rels, rel_id, rel_index, with_rel};
use crate::text::{dec, lemma_dec_injective, str_eq};
use crate::walk::blocks_nodes;

verus! {

/// The locations that tags start or end at.
pub open spec fn tag_locations(tags: Seq<Tag>) -> Set<u128>
    decreases tags.len(),
{
    if tags.len() == 0 {
        Set::empty()
    } else {
        match tags.last() {
            Tag::Start { location: Some(loc), elem: _ } => tag_locations(tags.drop_last()).insert(
                loc.0,
            ),
            Tag::Start { location: None, elem: _ } => tag_locations(tags.drop_last()),
            Tag::End { location } => tag_locations(tags.drop_last()).insert(location.0),
        }
    }
}

/// The relationship of a header or footer part.
pub open spec fn part_rel(slot: FurnitureSlot, name: Seq<char>) -> RelSpec {
    RelSpec {
        ty: if slot == FurnitureSlot::Header {
            REL_HEADER@
        } else {
            REL_FOOTER@
        },
        target: name,
        mode: RelMode::Internal,
    }
}

/// Whether references grew by one of the given kind and identifier.
pub open spec fn ref_added(
    before: Seq<HdrFtrRef>,
    after: Seq<HdrFtrRef>,
    kind: Seq<char>,
    rel: Seq<char>,
) -> bool {
    &&& after.len() == before.len() + 1
    &&& after.drop_last() == before
    &&& after.last().kind@ == kind
    &&& after.last().rel@ == rel
}

/// Whether a section gained a reference to a part in a slot.
pub open spec fn slot_ref_added(
    before: SectPr,
    after: SectPr,
    slot: FurnitureSlot,
    kind: Seq<char>,
    rel: Seq<char>,
) -> bool {
    match slot {
        FurnitureSlot::Header => {
            &&& ref_added(before.headers@, after.headers@, kind, rel)
            &&& after == (SectPr { headers: after.headers, ..before })
        },
        FurnitureSlot::Footer => {
            &&& ref_added(before.footers@, after.footers@, kind, rel)
            &&& after == (SectPr { footers: after.footers, ..before })
        },
    }
}

/// The state of a section under construction.
pub struct Building {
    pub ctx: DocxCtx,
    pub sect: SectPr,
    pub parts: Seq<HdrFtrPart>,
}

/// Whether `b` is `a` with one part more: it has a fresh name and a relationship
/// of the document, and the section refers to it.
pub open spec fn part_added(
    a: Building,
    b: Building,
    slot: FurnitureSlot,
    kind: Seq<char>,
    part: HdrFtrPart,
) -> bool {
    let name = hdrftr_name(slot == FurnitureSlot::Header, a.ctx.next_hdrftr_id);
    let rel = part_rel(slot, name);
    &&& part.part_name@ == name
    &&& part.is_header == (slot == FurnitureSlot::Header)
    &&& b.parts == a.parts.push(part)
    &&& b.ctx.next_hdrftr_id == a.ctx.next_hdrftr_id + 1
    &&& b.ctx.doc_rels@ == with_rel(a.ctx.doc_rels@, rel)
    &&& slot_ref_added(a.sect, b.sect, slot, kind, rel_id(rel_index(a.ctx.doc_rels@, rel, 0)))
    &&& b.ctx == (DocxCtx {
        next_hdrftr_id: b.ctx.next_hdrftr_id,
        doc_rels: b.ctx.doc_rels,
        ..a.ctx
    })
}

/// Whether `b` is `a` with furniture of one kind emitted. Furniture without
/// blocks is emitted only where it was asked for. Its tags are put aside, and
/// their locations noted.
pub open spec fn emitted(
    a: Building,
    b: Building,
    slot: FurnitureSlot,
    kind: Seq<char>,
    lowered: LoweredFurniture,
) -> bool {
    if !lowered.emit_empty && lowered.blocks@.len() == 0 {
        b == a
    } else {
        let tags = blocks_tags(lowered.blocks@);
        let noted = DocxCtx {
            deferred_tags: b.ctx.deferred_tags,
            real_alias_locations: b.ctx.real_alias_locations,
            ..a.ctx
        };
        &&& b.ctx.deferred_tags@ == a.ctx.deferred_tags@ + tags
        &&& b.ctx.real_alias_locations@ == a.ctx.real_alias_locations@ + tag_locations(tags)
        &&& b.parts.len() > 0
        &&& part_added(Building { ctx: noted, ..a }, b, slot, kind, b.parts.last())
        &&& b.parts.last().blocks == lowered.blocks
        &&& b.parts.last().rels == lowered.rels
    }
}

/// Whether the states follow each other by emitting the first `n` variants.
pub open spec fn is_emission(
    states: Seq<Building>,
    slot: FurnitureSlot,
    refs: Seq<FurnitureRefPlan>,
    n: int,
) -> bool {
    &&& states.len() == n + 1
    &&& forall|i: int|
        0 <= i < n ==> emitted(
            states[i],
            states[i + 1],
            slot,
            (#[trigger] refs[i]).kind@,
            refs[i].lowered,
        )
}

/// Whether `b` is `a` with the variants emitted, in their order.
pub open spec fn all_emitted(
    a: Building,
    b: Building,
    slot: FurnitureSlot,
    refs: Seq<FurnitureRefPlan>,
) -> bool {
    exists|states: Seq<Building>|
        {
            &&& #[trigger] is_emission(states, slot, refs, refs.len() as int)
            &&& states.first() == a
            &&& states.last() == b
        }
}

/// Notes the locations of tags as those of page furniture.
pub fn note_locations(ctx: &mut DocxCtx, tags: &Vec<Tag>)
    ensures
        final(ctx).real_alias_locations@ == old(ctx).real_alias_locations@ + tag_locations(tags@),
        *final(ctx) == (DocxCtx {
            real_alias_locations: final(ctx).real_alias_locations,
            ..*old(ctx)
        }),
{
    let mut i: usize = 0;
    assert(old(ctx).real_alias_locations@ + tag_locations(tags@.take(0)) =~= old(
        ctx,
    ).real_alias_locations@);
    while i < tags.len()
        invariant
            i <= tags@.len(),
            ctx.real_alias_locations@ == old(ctx).real_alias_locations@ + tag_locations(
                tags@.take(i as int),
            ),
            *ctx == (DocxCtx { real_alias_locations: ctx.real_alias_locations, ..*old(ctx) }),
        decreases tags@.len() - i,
    {
        assert(tags@.take(i + 1).drop_last() =~= tags@.take(i as int));
        match tags[i] {
            Tag::Start { location: Some(loc), elem: _ } => {
                fx_set_insert(&mut ctx.real_alias_locations, loc.0);
            },
            Tag::Start { location: None, elem: _ } => {},
            Tag::End { location } => {
                fx_set_insert(&mut ctx.real_alias_locations, location.0);
            },
        }
        i = i + 1;
        assert(ctx.real_alias_locations@ =~= old(ctx).real_alias_locations@ + tag_locations(
            tags@.take(i as int),
        ));
    }
    assert(tags@.take(i as int) =~= tags@);
}

fn add_part(
    ctx: &mut DocxCtx,
    sect: &mut SectPr,
    parts: &mut Vec<HdrFtrPart>,
    slot: FurnitureSlot,
    kind: &'static str,
    blocks: Vec<Block>,
    rels: Rels,
)
    requires
        old(ctx).next_hdrftr_id < u32::MAX,
        old(ctx).doc_rels@.len() < usize::MAX,
    ensures
        ({
            let a = Building { ctx: *old(ctx), sect: *old(sect), parts: old(parts)@ };
            let b = Building { ctx: *final(ctx), sect: *final(sect), parts: final(parts)@ };
            &&& final(parts)@.len() > 0
            &&& part_added(a, b, slot, kind@, final(parts)@.last())
            &&& final(parts)@.last().blocks == blocks
            &&& final(parts)@.last().rels == rels
        }),
{
    let is_header: bool = slot.is_header();
    let part_name: String = ctx.next_hdrftr_name(is_header);
    let rel: String = if is_header {
        ctx.add_header_rel(part_name.as_str())
    } else {
        ctx.add_footer_rel(part_name.as_str())
    };
    if is_header {
        sect.headers.push(HdrFtrRef { kind, rel });
        assert(sect.headers@.drop_last() =~= old(sect).headers@);
    } else {
        sect.footers.push(HdrFtrRef { kind, rel });
        assert(sect.footers@.drop_last() =~= old(sect).footers@);
    }
    parts.push(HdrFtrPart { part_name, is_header, blocks, rels });
}

/// Emits furniture of one kind as a part of its own.
pub fn emit_furniture(
    ctx: &mut DocxCtx,
    sect: &mut SectPr,
    parts: &mut Vec<HdrFtrPart>,
    slot: FurnitureSlot,
    kind: &'static str,
    lowered: LoweredFurniture,
)
    requires
        old(ctx).next_hdrftr_id < u32::MAX,
        old(ctx).doc_rels@.len() < usize::MAX,
    ensures
        emitted(
            Building { ctx: *old(ctx), sect: *old(sect), parts: old(parts)@ },
            Building { ctx: *final(ctx), sect: *final(sect), parts: final(parts)@ },
            slot,
            kind@,
            lowered,
        ),
        final(ctx).next_hdrftr_id <= old(ctx).next_hdrftr_id + 1,
        final(ctx).doc_rels@.len() <= old(ctx).doc_rels@.len() + 1,
{
    if !lowered.emit_empty && lowered.blocks.len() == 0 {
        return;
    }
    let mut tags: Vec<Tag> = Vec::new();
    collect_tags(&lowered.blocks, &mut tags);
    assert(tags@ =~= blocks_tags(lowered.blocks@));
    note_locations(ctx, &tags);
    ctx.deferred_tags.append(&mut tags);
    add_part(ctx, sect, parts, slot, kind, lowered.blocks, lowered.rels);
}

/// Emits the variants of furniture.
fn emit_variants(
    ctx: &mut DocxCtx,
    sect: &mut SectPr,
    parts: &mut Vec<HdrFtrPart>,
    slot: FurnitureSlot,
    refs: Vec<FurnitureRefPlan>,
)
    requires
        old(ctx).next_hdrftr_id + refs@.len() < u32::MAX,
        old(ctx).doc_rels@.len() + refs@.len() < usize::MAX,
    ensures
        all_emitted(
            Building { ctx: *old(ctx), sect: *old(sect), parts: old(parts)@ },
            Building { ctx: *final(ctx), sect: *final(sect), parts: final(parts)@ },
            slot,
            refs@,
        ),
        final(ctx).next_hdrftr_id <= old(ctx).next_hdrftr_id + refs@.len(),
        final(ctx).doc_rels@.len() <= old(ctx).doc_rels@.len() + refs@.len(),
{
    let ghost start = Building { ctx: *ctx, sect: *sect, parts: parts@ };
    let ghost all = refs@;
    let ghost mut states: Seq<Building> = seq![start];
    for planned in it: refs
        invariant
            it.seq() == all,
            start.ctx.next_hdrftr_id + all.len() < u32::MAX,
            start.ctx.doc_rels@.len() + all.len() < usize::MAX,
            ctx.next_hdrftr_id <= start.ctx.next_hdrftr_id + it.index(),
            ctx.doc_rels@.len() <= start.ctx.doc_rels@.len() + it.index(),
            is_emission(states, slot, all, it.index() as int),
            states.first() == start,
            states.last() == (Building { ctx: *ctx, sect: *sect, parts: parts@ }),
    {
        let ghost i = it.index() as int;
        assert(planned == all[i]);
        emit_furniture(ctx, sect, parts, slot, planned.kind, planned.lowered);
        proof {
            let before = states;
            states = states.push(Building { ctx: *ctx, sect: *sect, parts: parts@ });
            assert forall|k: int| 0 <= k < i + 1 implies emitted(
                states[k],
                states[k + 1],
                slot,
                (#[trigger] all[k]).kind@,
                all[k].lowered,
            ) by {
                if k < i {
                    assert(states[k] == before[k] && states[k + 1] == before[k + 1]);
                }
            }
        }
    }
    assert(is_emission(states, slot, all, all.len() as int));
}

/// The section with the band of a slot adjusted, where the height is known.
pub open spec fn banded(sect: SectPr, slot: FurnitureSlot, height: Option<i32>) -> SectPr {
    match height {
        None => sect,
        Some(h) => match slot {
            FurnitureSlot::Header => SectPr {
                header: adjusted_band(sect.header, sect.margin_top, h),
                ..sect
            },
            FurnitureSlot::Footer => SectPr {
                footer: adjusted_band(sect.footer, sect.margin_bottom, h),
                ..sect
            },
        },
    }
}

/// Whether a height is the one that all variants with content share, if any.
pub open spec fn is_common_height(refs: Seq<FurnitureRefPlan>, height: Option<i32>) -> bool {
    let shown = exists|i: int|
        0 <= i < refs.len() && !shows_nothing((#[trigger] refs[i]).lowered.blocks@);
    match height {
        Some(h) => shown && all_high(refs, refs.len() as int, Some(h)),
        None => !shown || forall|h: i32| !#[trigger] all_high(refs, refs.len() as int, Some(h)),
    }
}

/// Builds the parts of planned furniture. For sampled furniture the number of
/// characters that the sample shows comes back.
pub fn build_furniture_refs(
    ctx: &mut DocxCtx,
    sect: &mut SectPr,
    parts: &mut Vec<HdrFtrPart>,
    slot: FurnitureSlot,
    plan: FurniturePlan,
) -> (sampled: Option<u128>)
    requires
        match plan {
            FurniturePlan::Exact { title_page: _, refs } => old(ctx).next_hdrftr_id + refs@.len()
                < u32::MAX && old(ctx).doc_rels@.len() + refs@.len() < usize::MAX,
            FurniturePlan::Sampled { first: _ } => old(ctx).next_hdrftr_id < u32::MAX && old(
                ctx,
            ).doc_rels@.len() < usize::MAX,
        },
    ensures
        ({
            let a = Building { ctx: *old(ctx), sect: *old(sect), parts: old(parts)@ };
            let b = Building { ctx: *final(ctx), sect: *final(sect), parts: final(parts)@ };
            match plan {
                FurniturePlan::Exact { title_page, refs } => {
                    &&& sampled is None
                    &&& exists|height: Option<i32>|
                        {
                            &&& #[trigger] is_common_height(refs@, height)
                            &&& all_emitted(
                                Building {
                                    sect: banded(
                                        SectPr {
                                            title_pg: a.sect.title_pg || title_page,
                                            ..a.sect
                                        },
                                        slot,
                                        height,
                                    ),
                                    ..a
                                },
                                b,
                                slot,
                                refs@,
                            )
                        }
                },
                FurniturePlan::Sampled { first } => {
                    &&& sampled is Some
                    &&& sampled->0 == text_chars_at(blocks_nodes(first.blocks@))
                    &&& emitted(
                        Building {
                            sect: banded(a.sect, slot, content_height(first.blocks@)),
                            ..a
                        },
                        b,
                        slot,
                        "default"@,
                        first,
                    )
                },
            }
        }),
{
    match plan {
        FurniturePlan::Exact { title_page, refs } => {
            sect.title_pg = sect.title_pg || title_page;
            let height: Option<i32> = uniform_single_line_furniture_height(&refs);
            proof {
                if height is None {
                    let shown = exists|i: int|
                        0 <= i < refs@.len() && !shows_nothing(
                            (#[trigger] refs@[i]).lowered.blocks@,
                        );
                    if shown {
                        assert forall|h: i32| !#[trigger] all_high(
                            refs@,
                            refs@.len() as int,
                            Some(h),
                        ) by {}
                    }
                }
                assert(is_common_height(refs@, height));
            }
            if let Some(h) = height {
                adjust_furniture_band(sect, slot, h);
            }
            emit_variants(ctx, sect, parts, slot, refs);
            None
        },
        FurniturePlan::Sampled { first } => {
            if let Some(h) = furniture_content_height(&first.blocks) {
                adjust_furniture_band(sect, slot, h);
            }
            let chars: u128 = blocks_text_chars(&first.blocks);
            emit_furniture(ctx, sect, parts, slot, "default", first);
            Some(chars)
        },
    }
}

/// Whether section properties state a page setup and nothing else.
pub open spec fn states_geometry(s: SectPr, g: SectGeom) -> bool {
    &&& s.page_w == g.page_w
    &&& s.page_h == g.page_h
    &&& s.landscape == g.landscape
    &&& s.margin_top == g.margin_top
    &&& s.margin_bottom == g.margin_bottom
    &&& s.margin_left == g.margin_left
    &&& s.margin_right == g.margin_right
    &&& s.header == g.header_band
    &&& s.footer == g.footer_band
    &&& s.columns == g.columns
    &&& s.gutter == g.gutter
    &&& s.col_space == g.col_space
    &&& s.line_numbers == g.line_numbers
    &&& s.sect_type is None
    &&& s.vertical_align == g.vertical_align
    &&& s.headers@.len() == 0
    &&& s.footers@.len() == 0
    &&& !s.title_pg
}

/// The section properties of a page setup, without furniture.
pub fn sectpr_geometry(geom: &SectGeom) -> (r: SectPr)
    ensures
        states_geometry(r, *geom),
        r.pg_num is None,
{
    SectPr {
        page_w: geom.page_w,
        page_h: geom.page_h,
        landscape: geom.landscape,
        margin_top: geom.margin_top,
        margin_bottom: geom.margin_bottom,
        margin_left: geom.margin_left,
        margin_right: geom.margin_right,
        header: geom.header_band,
        footer: geom.footer_band,
        columns: geom.columns,
        gutter: geom.gutter,
        col_space: geom.col_space,
        line_numbers: geom.line_numbers,
        pg_num: None,
        sect_type: None,
        vertical_align: geom.vertical_align,
        headers: Vec::new(),
        footers: Vec::new(),
        title_pg: false,
    }
}

/// The page-number settings of a section: their format and where they restart.
pub open spec fn page_number_settings(
    numbering: Option<PageNumbering>,
    start: Option<i64>,
) -> Option<(Seq<char>, Option<i64>)> {
    if numbering is None && start is None {
        None
    } else {
        Some(
            (
                match numbering {
                    Some(n) => kth_format(n, 0),
                    None => "decimal"@,
                },
                start,
            ),
        )
    }
}

/// Starts the section properties of a page setup. `numbering` is the page
/// numbering where there is one; it and a restart of the page count give the
/// page-number settings.
pub fn start_section(geom: &SectGeom, numbering: Option<&PageNumbering>) -> (r: SectPr)
    ensures
        states_geometry(r, *geom),
        match r.pg_num {
            Some(pg) => {
                &&& numbering is Some || geom.page_num_start is Some
                &&& pg.start == geom.page_num_start
                &&& pg.fmt@ == (match numbering {
                    Some(n) => kth_format(*n, 0),
                    None => "decimal"@,
                })
            },
            None => numbering is None && geom.page_num_start is None,
        },
        (match r.pg_num {
            Some(pg) => Some((pg.fmt@, pg.start)),
            None => None,
        }) == page_number_settings(
            match numbering {
                Some(n) => Some(*n),
                None => None,
            },
            geom.page_num_start,
        ),
{
    let mut sect: SectPr = sectpr_geometry(geom);
    if numbering.is_some() || geom.page_num_start.is_some() {
        let fmt: &'static str = match numbering {
            Some(n) => numbering_fmt(n),
            None => "decimal",
        };
        sect.pg_num = Some(PgNumType { fmt, start: geom.page_num_start });
    }
    sect
}

/// Whether a page setup has a header of its own: content, or something drawn on
/// every page.
pub fn has_header_furniture(geom: &SectGeom) -> (r: bool)
    ensures
        r == (geom.header is Some || geom.background is Some || geom.background_color is Some
            || geom.foreground is Some),
{
    geom.header.is_some() || geom.background.is_some() || geom.background_color.is_some()
        || geom.foreground.is_some()
}

/// The slot of the automatic page number, if there is one.
pub open spec fn number_slot(g: SectGeom, numbered: bool) -> Option<FurnitureSlot> {
    if !numbered {
        None
    } else if g.number_in_header && g.header is None && !g.header_suppressed {
        Some(FurnitureSlot::Header)
    } else if !g.number_in_header && g.footer is None && !g.footer_suppressed {
        Some(FurnitureSlot::Footer)
    } else {
        None
    }
}

/// Whether a part holds the page number alone.
pub open spec fn is_number_part(
    part: HdrFtrPart,
    numbering: PageNumbering,
    style: Seq<char>,
    jc: Option<Jc>,
) -> bool {
    &&& part.rels@.len() == 0
    &&& part.blocks@.len() == 1
    &&& match flow_look(part.blocks@[0]) {
        FlowLook::Para { props, content } => {
            &&& props == (ParaLook {
                style: Some(style),
                jc: Some(
                    match jc {
                        Some(j) => j,
                        None => Jc::Center,
                    },
                ),
                ..plain_para()
            })
            &&& are_number_items(content, page_number_items(Some(numbering)))
        },
        _ => false,
    }
}

/// Adds the automatic page number, where the page setup leaves its place free.
pub fn add_page_number(
    ctx: &mut DocxCtx,
    sect: &mut SectPr,
    headers: &mut Vec<HdrFtrPart>,
    footers: &mut Vec<HdrFtrPart>,
    geom: &SectGeom,
    numbering: Option<&PageNumbering>,
)
    requires
        old(ctx).next_hdrftr_id < u32::MAX,
        old(ctx).doc_rels@.len() < usize::MAX,
    ensures
        match number_slot(*geom, numbering is Some) {
            None => {
                &&& *final(ctx) == *old(ctx)
                &&& *final(sect) == *old(sect)
                &&& *final(headers) == *old(headers)
                &&& *final(footers) == *old(footers)
            },
            Some(FurnitureSlot::Header) => {
                &&& *final(footers) == *old(footers)
                &&& final(headers)@.len() > 0
                &&& part_added(
                    Building { ctx: *old(ctx), sect: *old(sect), parts: old(headers)@ },
                    Building { ctx: *final(ctx), sect: *final(sect), parts: final(headers)@ },
                    FurnitureSlot::Header,
                    "default"@,
                    final(headers)@.last(),
                )
                &&& is_number_part(
                    final(headers)@.last(),
                    *(numbering->0),
                    "Header"@,
                    geom.number_jc,
                )
            },
            Some(FurnitureSlot::Footer) => {
                &&& *final(headers) == *old(headers)
                &&& final(footers)@.len() > 0
                &&& part_added(
                    Building { ctx: *old(ctx), sect: *old(sect), parts: old(footers)@ },
                    Building { ctx: *final(ctx), sect: *final(sect), parts: final(footers)@ },
                    FurnitureSlot::Footer,
                    "default"@,
                    final(footers)@.last(),
                )
                &&& is_number_part(
                    final(footers)@.last(),
                    *(numbering->0),
                    "Footer"@,
                    geom.number_jc,
                )
            },
        },
{
    if numbering.is_none() {
        return;
    }
    let mut blocks: Vec<Block> = Vec::new();
    if geom.number_in_header && geom.header.is_none() && !geom.header_suppressed {
        blocks.push(page_number_para(numbering, "Header", geom.number_jc));
        add_part(ctx, sect, headers, FurnitureSlot::Header, "default", blocks, Rels::new());
    } else if !geom.number_in_header && geom.footer.is_none() && !geom.footer_suppressed {
        blocks.push(page_number_para(numbering, "Footer", geom.number_jc));
        add_part(ctx, sect, footers, FurnitureSlot::Footer, "default", blocks, Rels::new());
    }
}

/// Whether a section's furniture distinguishes even pages.
pub open spec fn uses_even(sect: SectPr) -> bool {
    ||| exists|i: int| 0 <= i < sect.headers@.len() && (#[trigger] sect.headers@[i]).kind@
        == "even"@
    ||| exists|i: int| 0 <= i < sect.footers@.len() && (#[trigger] sect.footers@[i]).kind@
        == "even"@
}

fn refs_use_even(refs: &Vec<HdrFtrRef>) -> (r: bool)
    ensures
        r == (exists|i: int| 0 <= i < refs@.len() && (#[trigger] refs@[i]).kind@ == "even"@),
{
    let mut i: usize = 0;
    while i < refs.len()
        invariant
            i <= refs@.len(),
            forall|k: int| 0 <= k < i ==> (#[trigger] refs@[k]).kind@ != "even"@,
        decreases refs@.len() - i,
    {
        if str_eq(refs[i].kind, "even") {
            return true;
        }
        i = i + 1;
    }
    false
}

/// Whether a section's furniture distinguishes even pages.
pub fn section_uses_even_furniture(sect: &SectPr) -> (r: bool)
    ensures
        r == uses_even(*sect),
{
    refs_use_even(&sect.headers) || refs_use_even(&sect.footers)
}

/// No two parts share a name: a name tells its slot and its number.
pub proof fn part_names_differ(a_header: bool, a: u32, b_header: bool, b: u32)
    requires
        a_header != b_header || a != b,
    ensures
        hdrftr_name(a_header, a) != hdrftr_name(b_header, b),
{
    let x = hdrftr_name(a_header, a);
    let y = hdrftr_name(b_header, b);
    reveal_strlit("header");
    reveal_strlit("footer");
    reveal_strlit(".xml");
    assert(x[0] == (if a_header {
        'h'
    } else {
        'f'
    }));
    assert(y[0] == (if b_header {
        'h'
    } else {
        'f'
    }));
    if x == y {
        assert(a_header == b_header);
        assert(x.subrange(6, x.len() - 4) =~= dec(a as int));
        assert(y.subrange(6, y.len() - 4) =~= dec(b as int));
        lemma_dec_injective(a as int, b as int);
    }
}

} // verus!
