//! Puts the lowered sections together and finishes the document's text.

use vstd::prelude::*;

use crate::convert::breaks::{Piece, are_pieces, break_pieces, is_piece, page_break_block};
use crate::ctx::state::DocxCtx;
use crate::document::geometry::{ContentId, NumberingId, SectGeom};
use crate::document::parts::{
    section_uses_even_furniture, sectpr_geometry, states_geometry, uses_even,
};
use crate::document::sections::SectionRun;
use crate::document::styles::{
    all_demoted, all_inherit, apply_style_inheritance, are_derived, are_voted,
    demote_unrepresentable_heading_booleans, derive_heading_styles, paras_votes,
    vote_text_defaults,
};
use crate::document::tags::{TagWalk, Trail, appended, blocks_tags, collect_tags};
use crate::dom::{
    Block, Footnote, HdrFtrPart, HeadingStyle, HeadingStyleSample, ListLevel, NumberingTable,
    SectPr, SectType, Tag, TextDefaults, opt_rgb_eq,
};
use crate::heading_numbering::{
    Outcome, Parts, all_unnumbered, can_go_live, headings_among, max_num_id,
    parts_live, registered, styles_joined,
};
use crate::report::{Decision, DecisionReason, LossSet, Representation};
use crate::walk::paras;

verus! {

/// Whether a page color is the one that pages have by themselves.
pub open spec fn default_white(color: Option<[u8; 3]>) -> bool {
    color is None || color == Some([255u8, 255u8, 255u8])
}

/// Whether the sections disagree on the page color.
pub open spec fn backgrounds_vary(sections: Seq<SectionRun>) -> bool {
    exists|i: int|
        0 < i < sections.len() && (#[trigger] sections[i]).geom.background_color
            != sections[0].geom.background_color
}

/// A section of a document whose sections disagree on the page color. A page
/// color holds for the whole document, so only the colored sections keep theirs;
/// a white section after a colored one gets an empty header where it has nothing
/// else that keeps it from inheriting the color through the header before it.
pub open spec fn background_normalized(
    sections: Seq<SectionRun>,
    i: int,
    empty: ContentId,
) -> SectionRun {
    let geom = sections[i].geom;
    let cut_off = i > 0 && !default_white(sections[i - 1].geom.background_color)
        && geom.header is None && geom.background is None && geom.foreground is None;
    if default_white(geom.background_color) {
        SectionRun {
            geom: SectGeom {
                background_color: None,
                header: if cut_off {
                    Some(empty)
                } else {
                    geom.header
                },
                ..geom
            },
            ..sections[i]
        }
    } else {
        sections[i]
    }
}

fn is_default_white(color: Option<[u8; 3]>) -> (r: bool)
    ensures
        r == default_white(color),
{
    color.is_none() || opt_rgb_eq(color, Some([255u8, 255u8, 255u8]))
}

fn vary(sections: &Vec<SectionRun>) -> (r: bool)
    ensures
        r == backgrounds_vary(sections@),
{
    let mut i: usize = 1;
    while i < sections.len()
        invariant
            1 <= i,
            forall|k: int|
                0 < k < i && k < sections@.len() ==> (#[trigger] sections@[k]).geom.background_color
                    == sections@[0].geom.background_color,
        decreases sections.len() - i,
    {
        if !opt_rgb_eq(sections[i].geom.background_color, sections[0].geom.background_color) {
            return true;
        }
        i = i + 1;
    }
    false
}

/// Keeps page colors of sections that disagree on them from reaching sections
/// without one; `empty` names empty content. Returns whether they disagree.
pub fn normalize_backgrounds(sections: &mut Vec<SectionRun>, empty: ContentId) -> (r: bool)
    ensures
        r == backgrounds_vary(old(sections)@),
        !r ==> final(sections)@ == old(sections)@,
        r ==> final(sections)@ == Seq::new(
            old(sections)@.len(),
            |i: int| background_normalized(old(sections)@, i, empty),
        ),
{
    if !vary(sections) {
        return false;
    }
    let n: usize = sections.len();
    let mut preceding_colored: bool = false;
    let mut i: usize = 0;
    while i < n
        invariant
            i <= n,
            n == sections@.len(),
            n == old(sections)@.len(),
            preceding_colored == (i > 0 && !default_white(
                old(sections)@[i - 1].geom.background_color,
            )),
            forall|k: int|
                0 <= k < i ==> #[trigger] sections@[k] == background_normalized(
                    old(sections)@,
                    k,
                    empty,
                ),
            forall|k: int| i <= k < n ==> #[trigger] sections@[k] == old(sections)@[k],
        decreases n - i,
    {
        let mut section: SectionRun = sections[i];
        let white: bool = is_default_white(section.geom.background_color);
        if white {
            section.geom.background_color = None;
            if preceding_colored && section.geom.header.is_none()
                && section.geom.background.is_none() && section.geom.foreground.is_none() {
                section.geom.header = Some(empty);
            }
        }
        sections.set(i, section);
        preceding_colored = !white;
        i = i + 1;
    }
    assert(sections@ =~= Seq::new(
        old(sections)@.len(),
        |i: int| background_normalized(old(sections)@, i, empty),
    ));
    true
}

/// The page settings of a document that its sections decide together.
pub struct PageSettings {
    /// The geometry that the document starts with.
    pub first: SectGeom,
    /// The page numbering of every section.
    pub numberings: Vec<Option<NumberingId>>,
    pub mirror_margins: bool,
    pub rtl_gutter: bool,
    /// The page color of the whole document.
    pub background_color: Option<[u8; 3]>,
    pub hyphenate: bool,
}

/// Reads the page settings off the sections, or off the geometry of a document
/// without one. `varied` tells whether the sections disagree on the page color.
pub fn page_settings(sections: &Vec<SectionRun>, fallback: &SectGeom, varied: bool) -> (r:
    PageSettings)
    ensures
        r.first == (if sections@.len() > 0 {
            sections@[0].geom
        } else {
            *fallback
        }),
        r.numberings@ == (if sections@.len() > 0 {
            sections@.map_values(|s: SectionRun| s.geom.numbering)
        } else {
            seq![fallback.numbering]
        }),
        r.mirror_margins == (if sections@.len() > 0 {
            exists|i: int|
                0 <= i < sections@.len() && (#[trigger] sections@[i]).geom.mirror_margins
        } else {
            fallback.mirror_margins
        }),
        r.rtl_gutter == (if sections@.len() > 0 {
            exists|i: int| 0 <= i < sections@.len() && (#[trigger] sections@[i]).geom.rtl_gutter
        } else {
            fallback.rtl_gutter
        }),
        r.background_color == (if varied {
            None
        } else {
            r.first.background_color
        }),
        r.hyphenate == r.first.hyphenate,
{
    let first: SectGeom = if sections.len() > 0 {
        sections[0].geom
    } else {
        *fallback
    };
    let background_color: Option<[u8; 3]> = if varied {
        None
    } else {
        first.background_color
    };
    let mut numberings: Vec<Option<NumberingId>> = Vec::new();
    if sections.len() == 0 {
        numberings.push(fallback.numbering);
        return PageSettings {
            first,
            numberings,
            mirror_margins: fallback.mirror_margins,
            rtl_gutter: fallback.rtl_gutter,
            background_color,
            hyphenate: first.hyphenate,
        };
    }
    let mut mirror_margins: bool = false;
    let mut rtl_gutter: bool = false;
    let mut i: usize = 0;
    while i < sections.len()
        invariant
            i <= sections.len(),
            numberings@ == sections@.take(i as int).map_values(
                |s: SectionRun| s.geom.numbering,
            ),
            mirror_margins == exists|k: int|
                0 <= k < i && (#[trigger] sections@[k]).geom.mirror_margins,
            rtl_gutter == exists|k: int| 0 <= k < i && (#[trigger] sections@[k]).geom.rtl_gutter,
        decreases sections.len() - i,
    {
        let geom: SectGeom = sections[i].geom;
        numberings.push(geom.numbering);
        if geom.mirror_margins {
            mirror_margins = true;
        }
        if geom.rtl_gutter {
            rtl_gutter = true;
        }
        assert(numberings@ =~= sections@.take(i + 1).map_values(
            |s: SectionRun| s.geom.numbering,
        ));
        i = i + 1;
    }
    assert(sections@.take(i as int) =~= sections@);
    PageSettings {
        first,
        numberings,
        mirror_margins,
        rtl_gutter,
        background_color,
        hyphenate: first.hyphenate,
    }
}

/// A lowered section.
pub struct SectionContent {
    pub blocks: Vec<Block>,
    pub sect: SectPr,
    pub headers: Vec<HdrFtrPart>,
    pub footers: Vec<HdrFtrPart>,
}

/// The properties of a section whose header and footer parts could not be
/// lowered: its geometry alone. The relationships added for those parts since
/// the mark are dropped with them.
pub fn section_fallback(ctx: &mut DocxCtx, savepoint: usize, geom: &SectGeom) -> (r: (
    SectPr,
    Decision,
))
    requires
        savepoint <= old(ctx).doc_rels@.len(),
    ensures
        states_geometry(r.0, *geom),
        r.0.pg_num is None,
        r.1 == (Decision {
            representation: Representation::Approximate,
            reason: DecisionReason::SectionGeometryFallback,
            losses: LossSet::SectionGeometryOnly,
            affected_text_chars: 0,
        }),
        final(ctx).doc_rels@ == old(ctx).doc_rels@.take(savepoint as int),
        *final(ctx) == (DocxCtx { doc_rels: final(ctx).doc_rels, ..*old(ctx) }),
{
    ctx.doc_rels.rollback(savepoint);
    (
        sectpr_geometry(geom),
        Decision {
            representation: Representation::Approximate,
            reason: DecisionReason::SectionGeometryFallback,
            losses: LossSet::SectionGeometryOnly,
            affected_text_chars: 0,
        },
    )
}

/// How the section at `i` starts: by the break that was asked for after the
/// section before it.
pub open spec fn started(sections: Seq<SectionRun>, i: int) -> Option<SectType> {
    if i > 0 {
        sections[i - 1].break_after
    } else {
        None
    }
}

/// Blocks as they are.
pub open spec fn kept(blocks: Seq<Block>) -> Seq<Piece> {
    blocks.map_values(|b: Block| Piece::Kept(b))
}

/// The body that the first `n` sections make: the surplus page breaks at the
/// start of each, its blocks, and, for all but the last section, a section break
/// that carries its properties.
pub open spec fn joined(
    sections: Seq<SectionRun>,
    lowered: Seq<SectionContent>,
    n: int,
) -> Seq<Piece>
    decreases n,
{
    if n <= 0 {
        Seq::empty()
    } else {
        let section = lowered[n - 1];
        let before = joined(sections, lowered, n - 1) + break_pieces(
            sections[n - 1].leading_pagebreaks as nat,
            false,
        ) + kept(section.blocks@);
        if n == lowered.len() {
            before
        } else {
            before.push(
                Piece::Kept(
                    Block::SectionBreak(
                        SectPr { sect_type: started(sections, n - 1), ..section.sect },
                    ),
                ),
            )
        }
    }
}

/// The header parts of sections, in order.
pub open spec fn all_headers(lowered: Seq<SectionContent>) -> Seq<HdrFtrPart>
    decreases lowered.len(),
{
    if lowered.len() == 0 {
        Seq::empty()
    } else {
        all_headers(lowered.drop_last()) + lowered.last().headers@
    }
}

/// The footer parts of sections, in order.
pub open spec fn all_footers(lowered: Seq<SectionContent>) -> Seq<HdrFtrPart>
    decreases lowered.len(),
{
    if lowered.len() == 0 {
        Seq::empty()
    } else {
        all_footers(lowered.drop_last()) + lowered.last().footers@
    }
}

proof fn lemma_pieces_add(a: Seq<Block>, b: Seq<Block>, p: Seq<Piece>, q: Seq<Piece>)
    requires
        are_pieces(a, p),
        are_pieces(b, q),
    ensures
        are_pieces(a + b, p + q),
{
    assert forall|i: int| 0 <= i < (a + b).len() implies is_piece(
        #[trigger] (a + b)[i],
        (p + q)[i],
    ) by {
        if i < a.len() {
            assert(is_piece(a[i], p[i]));
        } else {
            assert(is_piece(b[i - a.len()], q[i - a.len()]));
        }
    }
}

/// Surplus page breaks, then the blocks of a section.
fn section_blocks(leading: usize, section: Vec<Block>) -> (blocks: Vec<Block>)
    ensures
        are_pieces(blocks@, break_pieces(leading as nat, false) + kept(section@)),
{
    let mut blocks: Vec<Block> = Vec::new();
    let mut i: usize = 0;
    while i < leading
        invariant
            i <= leading,
            are_pieces(blocks@, break_pieces(i as nat, false)),
        decreases leading - i,
    {
        let block: Block = page_break_block(false);
        let ghost before = blocks@;
        blocks.push(block);
        proof {
            lemma_pieces_add(
                before,
                seq![block],
                break_pieces(i as nat, false),
                seq![Piece::Break { flagged: false }],
            );
            assert(before + seq![block] =~= blocks@);
            assert(break_pieces(i as nat, false) + seq![Piece::Break { flagged: false }]
                =~= break_pieces((i + 1) as nat, false));
        }
        i = i + 1;
    }
    let ghost own = section@;
    let ghost leads = blocks@;
    let mut section: Vec<Block> = section;
    blocks.append(&mut section);
    proof {
        assert(are_pieces(own, kept(own)));
        lemma_pieces_add(leads, own, break_pieces(leading as nat, false), kept(own));
    }
    blocks
}

fn join_sections(sections: &Vec<SectionRun>, lowered: Vec<SectionContent>) -> (r: SectionContent)
    requires
        lowered@.len() > 0,
        sections@.len() == lowered@.len(),
    ensures
        are_pieces(r.blocks@, joined(sections@, lowered@, lowered@.len() as int)),
        r.sect == (SectPr {
            sect_type: started(sections@, lowered@.len() - 1),
            ..lowered@.last().sect
        }),
        r.headers@ == all_headers(lowered@),
        r.footers@ == all_footers(lowered@),
{
    let ghost all = lowered@;
    let count: usize = lowered.len();
    let mut body: Vec<Block> = Vec::new();
    let mut headers: Vec<HdrFtrPart> = Vec::new();
    let mut footers: Vec<HdrFtrPart> = Vec::new();
    let mut last: Option<SectPr> = None;
    let mut idx: usize = 0;
    for section in it: lowered
        invariant
            it.seq() == all,
            idx == it.index(),
            count == all.len(),
            sections@.len() == all.len(),
            are_pieces(body@, joined(sections@, all, idx as int)),
            headers@ == all_headers(all.take(idx as int)),
            footers@ == all_footers(all.take(idx as int)),
            idx == count ==> last == Some(
                SectPr { sect_type: started(sections@, count - 1), ..all.last().sect },
            ),
            count > 0,
    {
        assert(section == all[idx as int]);
        assert(all.take(idx + 1).drop_last() =~= all.take(idx as int));
        let SectionContent { blocks, sect, headers: mut own_headers, footers: mut own_footers } =
            section;
        let ghost before = body@;
        let mut own: Vec<Block> = section_blocks(sections[idx].leading_pagebreaks, blocks);
        let ghost own_blocks = own@;
        body.append(&mut own);
        headers.append(&mut own_headers);
        footers.append(&mut own_footers);
        let mut sect: SectPr = sect;
        sect.sect_type = if idx > 0 {
            sections[idx - 1].break_after
        } else {
            None
        };
        let ghost pieces = break_pieces(sections@[idx as int].leading_pagebreaks as nat, false)
            + kept(all[idx as int].blocks@);
        proof {
            lemma_pieces_add(before, own_blocks, joined(sections@, all, idx as int), pieces);
            assert(joined(sections@, all, idx as int) + pieces =~= joined(
                sections@,
                all,
                idx as int,
            ) + break_pieces(sections@[idx as int].leading_pagebreaks as nat, false) + kept(
                all[idx as int].blocks@,
            ));
        }
        let ghost joined_body = body@;
        if idx + 1 == count {
            last = Some(sect);
        } else {
            body.push(Block::SectionBreak(sect));
            proof {
                let piece = Piece::Kept(Block::SectionBreak(sect));
                lemma_pieces_add(
                    joined_body,
                    seq![Block::SectionBreak(sect)],
                    joined(sections@, all, idx as int) + pieces,
                    seq![piece],
                );
                assert(joined_body + seq![Block::SectionBreak(sect)] =~= body@);
                assert((joined(sections@, all, idx as int) + pieces) + seq![piece] =~= (joined(
                    sections@,
                    all,
                    idx as int,
                ) + pieces).push(piece));
            }
        }
        idx = idx + 1;
    }
    assert(all.take(count as int) =~= all);
    let sect: SectPr = last.unwrap();
    SectionContent { blocks: body, sect, headers, footers }
}

/// A stretch of the flow that is lowered at once, and its page setup.
#[derive(Debug, Copy, Clone)]
pub struct LoweringStep {
    pub geom: SectGeom,
    pub start: usize,
    pub end: usize,
}

/// What is lowered at once.
pub open spec fn steps_of(
    sections: Seq<SectionRun>,
    fallback: SectGeom,
    total: usize,
) -> Seq<LoweringStep> {
    if sections.len() <= 1 {
        seq![
            LoweringStep {
                geom: if sections.len() == 1 {
                    sections[0].geom
                } else {
                    fallback
                },
                start: 0,
                end: total,
            },
        ]
    } else {
        sections.map_values(
            |s: SectionRun| LoweringStep { geom: s.geom, start: s.start, end: s.end },
        )
    }
}

/// What is lowered at once: the content of each section, or, with no more than
/// one section, the whole flow of `total` items, breaks at its start included.
/// `fallback` is the page setup of a flow without a section.
pub fn lowering_steps(sections: &Vec<SectionRun>, fallback: &SectGeom, total: usize) -> (r: Vec<
    LoweringStep,
>)
    ensures
        r@ == (if sections@.len() <= 1 {
            seq![
                LoweringStep {
                    geom: if sections@.len() == 1 {
                        sections@[0].geom
                    } else {
                        *fallback
                    },
                    start: 0,
                    end: total,
                },
            ]
        } else {
            sections@.map_values(
                |s: SectionRun| LoweringStep { geom: s.geom, start: s.start, end: s.end },
            )
        }),
        r@ == steps_of(sections@, *fallback, total),
{
    let mut steps: Vec<LoweringStep> = Vec::new();
    if sections.len() <= 1 {
        let geom: SectGeom = if sections.len() == 1 {
            sections[0].geom
        } else {
            *fallback
        };
        steps.push(LoweringStep { geom, start: 0, end: total });
        return steps;
    }
    let mut i: usize = 0;
    while i < sections.len()
        invariant
            i <= sections.len(),
            steps@ == sections@.take(i as int).map_values(
                |s: SectionRun| LoweringStep { geom: s.geom, start: s.start, end: s.end },
            ),
        decreases sections.len() - i,
    {
        let section: SectionRun = sections[i];
        steps.push(LoweringStep { geom: section.geom, start: section.start, end: section.end });
        i = i + 1;
        assert(sections@.take(i as int) =~= sections@.take(i - 1).push(section));
    }
    assert(sections@.take(i as int) =~= sections@);
    steps
}

/// Joins what the steps of lowering made into one body: every section but the
/// last ends in a section break with its properties, and those of the last are
/// the document's. A document of one section is what its step made.
pub fn assemble_sections(sections: &Vec<SectionRun>, lowered: Vec<SectionContent>) -> (r:
    SectionContent)
    requires
        lowered@.len() == (if sections@.len() <= 1 {
            1
        } else {
            sections@.len()
        }),
    ensures
        sections@.len() <= 1 ==> r == lowered@[0],
        sections@.len() > 1 ==> {
            &&& are_pieces(r.blocks@, joined(sections@, lowered@, lowered@.len() as int))
            &&& r.sect == (SectPr {
                sect_type: started(sections@, lowered@.len() - 1),
                ..lowered@.last().sect
            })
            &&& r.headers@ == all_headers(lowered@)
            &&& r.footers@ == all_footers(lowered@)
        },
{
    if sections.len() <= 1 {
        let mut lowered: Vec<SectionContent> = lowered;
        lowered.pop().unwrap()
    } else {
        join_sections(sections, lowered)
    }
}

/// Whether a section asks for furniture of its own on even pages.
pub open spec fn even_and_odd(sect: SectPr, body: Seq<Block>) -> bool {
    uses_even(sect) || exists|i: int|
        0 <= i < body.len() && (#[trigger] body[i] matches Block::SectionBreak(s) && uses_even(s))
}

/// Whether a section of the document asks for furniture of its own on even
/// pages.
pub fn even_and_odd_headers(sect: &SectPr, body: &Vec<Block>) -> (r: bool)
    ensures
        r == even_and_odd(*sect, body@),
{
    if section_uses_even_furniture(sect) {
        return true;
    }
    let mut i: usize = 0;
    while i < body.len()
        invariant
            i <= body.len(),
            forall|k: int|
                0 <= k < i ==> !(#[trigger] body@[k] matches Block::SectionBreak(s) && uses_even(s)),
        decreases body.len() - i,
    {
        match &body[i] {
            Block::SectionBreak(s) => {
                if section_uses_even_furniture(s) {
                    assert(body@[i as int] matches Block::SectionBreak(s) && uses_even(s));
                    return true;
                }
            }
            _ => {}
        }
        i = i + 1;
    }
    false
}

/// The walk after the tags of footnotes.
pub open spec fn notes_walked(t: Trail, notes: Seq<Footnote>) -> Trail
    decreases notes.len(),
{
    if notes.len() == 0 {
        t
    } else {
        appended(notes_walked(t, notes.drop_last()), blocks_tags(notes.last().blocks@))
    }
}

/// The start of the first page.
pub open spec fn first_page() -> Trail {
    Trail {
        page: 1,
        section: 0,
        seen_content: false,
        page_content: false,
        y: 0,
        map: Map::empty(),
        out: Seq::empty(),
    }
}

/// Positions the tags of a document: those of its body on the pages that its
/// breaks make, then those of its footnotes and of content that was drawn as an
/// image, on the last page.
pub fn position_tags(body: &Vec<Block>, footnotes: &Vec<Footnote>, deferred: &Vec<Tag>) -> (r:
    TagWalk)
    ensures
        r@ == appended(notes_walked(first_page().blocks(body@), footnotes@), deferred@),
{
    let mut walk: TagWalk = TagWalk::new();
    walk.collect_positioned_tags(body);
    let mut i: usize = 0;
    while i < footnotes.len()
        invariant
            i <= footnotes.len(),
            walk@ == notes_walked(first_page().blocks(body@), footnotes@.take(i as int)),
        decreases footnotes.len() - i,
    {
        assert(footnotes@.take(i + 1).drop_last() =~= footnotes@.take(i as int));
        let mut tags: Vec<Tag> = Vec::new();
        collect_tags(&footnotes[i].blocks, &mut tags);
        assert(tags@ =~= blocks_tags(footnotes@[i as int].blocks@));
        walk.append_positioned_tags(&tags);
        i = i + 1;
    }
    assert(footnotes@.take(i as int) =~= footnotes@);
    walk.append_positioned_tags(deferred);
    walk
}

/// The text defaults and heading styles of a finished document, and what became
/// of its heading numbers.
pub struct Finished {
    pub text_defaults: TextDefaults,
    pub heading_styles: Vec<HeadingStyle>,
    pub numbering: Outcome,
}

/// What stands between the steps that finish a document's styles.
pub struct StyleSteps {
    /// The heading styles as the samples show them.
    pub derived: Seq<HeadingStyle>,
    /// The heading styles without what their runs do not allow.
    pub settled: Seq<HeadingStyle>,
    /// The parts without the properties that their text inherits.
    pub stripped: Parts,
}

/// What promoting heading numbers to live numbering does.
pub open spec fn numbers_applied(
    old: (Parts, NumberingTable, Seq<HeadingStyle>),
    new: (Parts, NumberingTable, Seq<HeadingStyle>),
    levels: Option<&Vec<ListLevel>>,
    outcome: Outcome,
) -> bool {
    let headings = headings_among(paras(old.0.body@));
    &&& outcome == Outcome::Unnumbered <==> all_unnumbered(headings)
    &&& outcome is Live <==> !all_unnumbered(headings) && can_go_live(levels, old.0)
    &&& outcome matches Outcome::Frozen(reason) ==> reason
        == DecisionReason::TypstOwnedHeadingNumber
    &&& !(outcome is Live) ==> new.0 == old.0 && new.1 == old.1 && new.2 == old.2
    &&& outcome matches Outcome::Live(num_id) ==> {
        &&& parts_live(old.0, new.0)
        &&& registered(old.1, new.1, levels.unwrap()@, num_id)
        &&& styles_joined(old.2, new.2, num_id)
    }
}

/// Whether the steps lead from the lowered parts to the finished ones: the
/// defaults are what most text uses, the heading styles what the headings show,
/// text loses what it inherits from either, and heading numbers become live
/// where live numbering reproduces them.
pub open spec fn finished_by(
    old: (Parts, NumberingTable),
    new: (Parts, NumberingTable),
    levels: Option<&Vec<ListLevel>>,
    samples: (u8, Seq<HeadingStyleSample>),
    fallback: TextDefaults,
    r: Finished,
    steps: StyleSteps,
) -> bool {
    let body = old.0.body@;
    &&& are_voted(r.text_defaults, paras_votes(paras(body)), fallback)
    &&& are_derived(steps.derived, samples.0, samples.1, body)
    &&& all_demoted(steps.derived, steps.settled, body)
    &&& all_inherit(body, steps.stripped.body@, r.text_defaults, steps.settled)
    &&& steps.stripped.footnotes == old.0.footnotes
    &&& steps.stripped.headers == old.0.headers
    &&& steps.stripped.footers == old.0.footers
    &&& numbers_applied(
        (steps.stripped, old.1, steps.settled),
        (new.0, new.1, r.heading_styles@),
        levels,
        r.numbering,
    )
}

/// Finishes the styles of a document: votes on the text defaults, derives the
/// heading styles, strips what text inherits from them, and promotes the heading
/// numbers to live numbering where that reproduces every number.
pub fn finish_styles(
    parts: &mut Parts,
    numbering: &mut NumberingTable,
    levels: Option<&Vec<ListLevel>>,
    max_heading_level: u8,
    samples: &Vec<HeadingStyleSample>,
    fallback: &TextDefaults,
) -> (r: Finished)
    requires
        old(numbering).abstracts@.len() <= u32::MAX,
        max_num_id(old(numbering).nums@, old(numbering).nums@.len() as int) < u32::MAX,
    ensures
        exists|steps: StyleSteps| #[trigger]
            finished_by(
                (*old(parts), *old(numbering)),
                (*final(parts), *final(numbering)),
                levels,
                (max_heading_level, samples@),
                *fallback,
                r,
                steps,
            ),
{
    let text_defaults: TextDefaults = vote_text_defaults(&parts.body, fallback);
    let mut heading_styles: Vec<HeadingStyle> = derive_heading_styles(
        max_heading_level,
        samples,
        &parts.body,
    );
    let ghost derived = heading_styles@;
    demote_unrepresentable_heading_booleans(&mut heading_styles, &parts.body);
    let ghost settled = heading_styles@;
    apply_style_inheritance(&text_defaults, &heading_styles, &mut parts.body);
    let ghost stripped = *parts;
    let outcome: Outcome = crate::heading_numbering::apply(
        parts,
        levels,
        numbering,
        &mut heading_styles,
    );
    let r = Finished { text_defaults, heading_styles, numbering: outcome };
    proof {
        let steps = StyleSteps { derived, settled, stripped };
        assert(numbers_applied(
            (stripped, *old(numbering), settled),
            (*parts, *numbering, heading_styles@),
            levels,
            outcome,
        ));
        assert(finished_by(
            (*old(parts), *old(numbering)),
            (*parts, *numbering),
            levels,
            (max_heading_level, samples@),
            *fallback,
            r,
            steps,
        ));
    }
    r
}

} // verus!
