//! Laws about pages: what furniture shows on each, where sections start and how
//! tags are ordered.

use vstd::prelude::*;

use crate::document::furniture::{FurnitureSamples, LoweredFurniture, parity_stable, variants};
use crate::document::geometry::SectGeom;
use crate::document::sections::{SectionRun, pushed};
use crate::document::signature::{sig_block_text, sig_blocks_text};
use crate::document::tags::{PositionedTag, Trail, paras_tags};
use crate::dom::{Block, Cell, ParaChild, Row, SectType, Tag};

verus! {

// -- Furniture ---------------------------------------------------------------

/// The first variant of a kind.
pub open spec fn of_kind(refs: Seq<(Seq<char>, LoweredFurniture)>, kind: Seq<char>) -> Option<
    LoweredFurniture,
>
    decreases refs.len(),
{
    if refs.len() == 0 {
        None
    } else if refs[0].0 == kind {
        Some(refs[0].1)
    } else {
        of_kind(refs.skip(1), kind)
    }
}

/// What a section shows on a page: the first page has a variant of its own where
/// there is a title page, and even pages have one where there is such a variant.
pub open spec fn shown_on(
    refs: Seq<(Seq<char>, LoweredFurniture)>,
    title_page: bool,
    page: int,
) -> Option<LoweredFurniture> {
    if page == 1 && title_page {
        of_kind(refs, "first"@)
    } else if page % 2 == 0 && of_kind(refs, "even"@) is Some {
        of_kind(refs, "even"@)
    } else {
        of_kind(refs, "default"@)
    }
}

/// What was lowered for one of the first five pages.
pub open spec fn sampled_on(first: LoweredFurniture, s: FurnitureSamples, page: int) ->
    LoweredFurniture {
    if page == 1 {
        first
    } else if page == 2 {
        s.even
    } else if page == 3 {
        s.odd
    } else if page == 4 {
        s.even_again
    } else {
        s.odd_again
    }
}

/// Furniture that is planned exactly shows on every sampled page what it was
/// lowered to for that page.
pub proof fn planned_furniture_shows_every_sample(
    first: LoweredFurniture,
    s: FurnitureSamples,
    page: int,
)
    requires
        parity_stable(s),
        1 <= page <= 5,
    ensures
        shown_on(variants(first, s), first.signature@ != s.odd.signature@, page) matches Some(f)
            && f.signature@ == sampled_on(first, s, page).signature@,
{
    reveal_strlit("first");
    reveal_strlit("even");
    reveal_strlit("default");
    reveal_with_fuel(of_kind, 4);
    assert("first"@.len() == 5 && "even"@.len() == 4 && "default"@.len() == 7);
    let refs = variants(first, s);
    if refs.len() > 1 {
        assert(refs.skip(1)[0] == refs[1]);
    }
    if refs.len() > 2 {
        assert(refs.skip(1).skip(1)[0] == refs[2]);
    }
}

/// Tags do not show: furniture with and without them has the same signature.
pub proof fn tags_leave_no_trace(acc: Seq<char>, blocks: Seq<Block>)
    ensures
        sig_blocks_text(acc, blocks) == sig_blocks_text(acc, blocks.filter(|b: Block| !(b is Tag))),
    decreases blocks.len(),
{
    let keep = |b: Block| !(b is Tag);
    reveal(Seq::filter);
    if blocks.len() > 0 {
        tags_leave_no_trace(acc, blocks.drop_last());
        let rest = blocks.drop_last().filter(keep);
        if keep(blocks.last()) {
            assert(blocks.filter(keep) == rest.push(blocks.last()));
            assert(rest.push(blocks.last()).drop_last() =~= rest);
        } else {
            assert(blocks.filter(keep) == rest);
            assert(sig_block_text(sig_blocks_text(acc, rest), blocks.last()) == sig_blocks_text(
                acc,
                rest,
            ));
        }
    } else {
        assert(blocks.filter(keep) =~= blocks);
    }
}

// -- Sections ----------------------------------------------------------------

/// Content that restarts the page count always starts a section of its own, and
/// no section before it changes.
pub proof fn a_restart_starts_a_section(
    sections: Seq<SectionRun>,
    geom: SectGeom,
    start: usize,
    end: usize,
    break_after: Option<SectType>,
    allow_empty: bool,
)
    requires
        geom.page_num_start is Some,
        start < end,
    ensures
        pushed(sections, geom, start, end, break_after, allow_empty) == sections.push(
            SectionRun { geom, start, end, break_after, leading_pagebreaks: 0 },
        ),
{
}

// -- Positions ---------------------------------------------------------------

/// Whether one position is not behind another: on an earlier page, or on the same
/// page and no further down.
pub open spec fn not_behind(a: PositionedTag, b: PositionedTag) -> bool {
    a.position.page < b.position.page || (a.position.page == b.position.page && a.position.block
        <= b.position.block)
}

/// Whether tags are in the order of their positions.
pub open spec fn in_page_order(s: Seq<PositionedTag>) -> bool {
    forall|i: int, j: int|
        0 <= i <= j < s.len() ==> not_behind(#[trigger] s[i], #[trigger] s[j])
}

/// Whether the tags of a trail from `n` on are in order and none of them is behind
/// the point that the trail has reached.
spec fn orderly(t: Trail, n: int) -> bool {
    &&& 1 <= t.page
    &&& forall|i: int, j: int|
        n <= i <= j < t.out.len() ==> not_behind(#[trigger] t.out[i], #[trigger] t.out[j])
    &&& forall|i: int|
        n <= i < t.out.len() ==> (#[trigger] t.out[i]).position.page < t.page
            || (t.out[i].position.page == t.page && t.out[i].position.block <= t.y)
}

/// Whether one trail continues another: it keeps its tags and the places that it
/// knows, and goes on in order. Pages are only counted up to the largest number; a
/// trail that gets there says nothing of its order.
spec fn continues(a: Trail, b: Trail) -> bool {
    &&& a.page <= b.page
    &&& a.out.len() <= b.out.len()
    &&& b.out.take(a.out.len() as int) == a.out
    &&& forall|k: u128| #[trigger]
        a.map.contains_key(k) ==> b.map.contains_key(k) && b.map[k] == a.map[k]
    &&& forall|n: int|
        0 <= n <= a.out.len() && b.page < usize::MAX && #[trigger] orderly(a, n) ==> orderly(b, n)
}

proof fn lemma_join(a: Trail, b: Trail, c: Trail)
    requires
        continues(a, b),
        continues(b, c),
    ensures
        continues(a, c),
{
    assert(c.out.take(a.out.len() as int) =~= c.out.take(b.out.len() as int).take(
        a.out.len() as int,
    ));
    assert forall|k: u128| #[trigger] a.map.contains_key(k) implies c.map.contains_key(k)
        && c.map[k] == a.map[k] by {
        assert(b.map.contains_key(k));
    }
    assert forall|n: int|
        0 <= n <= a.out.len() && c.page < usize::MAX && #[trigger] orderly(a, n) implies orderly(
        c,
        n,
    ) by {
        assert(orderly(b, n));
    }
}

proof fn lemma_tag(t: Trail, tag: Tag)
    ensures
        continues(t, t.tag(tag)),
{
    let u = t.tag(tag);
    assert(u.out.take(t.out.len() as int) =~= t.out);
    assert forall|n: int|
        0 <= n <= t.out.len() && u.page < usize::MAX && #[trigger] orderly(t, n) implies orderly(
        u,
        n,
    ) by {
        assert forall|i: int, j: int| n <= i <= j < u.out.len() implies not_behind(
            #[trigger] u.out[i],
            #[trigger] u.out[j],
        ) by {
            if j < t.out.len() {
                assert(not_behind(t.out[i], t.out[j]));
            } else if i < t.out.len() {
                assert(u.out[i] == t.out[i]);
            }
        }
        assert forall|i: int| n <= i < u.out.len() implies (#[trigger] u.out[i]).position.page
            < u.page || (u.out[i].position.page == u.page && u.out[i].position.block <= u.y) by {
            if i < t.out.len() {
                assert(u.out[i] == t.out[i]);
            }
        }
    }
}

proof fn lemma_still(t: Trail, u: Trail)
    requires
        u.out == t.out,
        u.map == t.map,
        t.page < u.page || (t.page == u.page && t.y <= u.y) || u.page == usize::MAX,
        t.page <= u.page,
    ensures
        continues(t, u),
{
    assert(u.out.take(t.out.len() as int) =~= t.out);
}

proof fn lemma_tags(t: Trail, tags: Seq<Tag>)
    ensures
        continues(t, t.tags(tags)),
    decreases tags.len(),
{
    if tags.len() > 0 {
        lemma_tags(t, tags.drop_last());
        lemma_tag(t.tags(tags.drop_last()), tags.last());
        lemma_join(t, t.tags(tags.drop_last()), t.tags(tags));
    } else {
        lemma_still(t, t);
    }
}

proof fn lemma_children(t: Trail, content: Seq<ParaChild>)
    ensures
        continues(t, t.children(content)),
    decreases content.len(),
{
    if content.len() > 0 {
        let before = t.children(content.drop_last());
        lemma_children(t, content.drop_last());
        match content.last() {
            ParaChild::Tag(tag) => lemma_tag(before, tag),
            _ => lemma_still(before, t.children(content)),
        }
        lemma_join(t, before, t.children(content));
    } else {
        lemma_still(t, t);
    }
}

proof fn lemma_block(t: Trail, block: Block)
    ensures
        continues(t, t.block(block)),
        t.section + block_section_breaks(block) <= usize::MAX ==> t.block(block).section
            == t.section + block_section_breaks(block),
    decreases block,
{
    let u = t.block(block);
    match block {
        Block::Tag(tag) => lemma_tag(t, tag),
        Block::Para(para) => {
            lemma_children(t, para.content@);
            lemma_children_section(t, para.content@);
            lemma_still(t.children(para.content@), u);
            lemma_join(t, t.children(para.content@), u);
        },
        Block::Table(tbl) => {
            let inside = t.content().rows(tbl.rows@);
            lemma_rows(t.content(), tbl.rows@);
            lemma_still(t, t.content());
            lemma_still(inside, u);
            lemma_join(t, t.content(), inside);
            lemma_join(t, inside, u);
        },
        Block::Toc(toc) => {
            let tags = paras_tags(toc.entries@);
            let inside = t.content().tags(tags);
            lemma_tags(t.content(), tags);
            lemma_tags_section(t.content(), tags);
            lemma_still(t, t.content());
            lemma_still(inside, u);
            lemma_join(t, t.content(), inside);
            lemma_join(t, inside, u);
        },
        _ => lemma_still(t, u),
    }
}

proof fn lemma_tags_section(t: Trail, tags: Seq<Tag>)
    ensures
        t.tags(tags).section == t.section,
    decreases tags.len(),
{
    if tags.len() > 0 {
        lemma_tags_section(t, tags.drop_last());
    }
}

proof fn lemma_children_section(t: Trail, content: Seq<ParaChild>)
    ensures
        t.children(content).section == t.section,
    decreases content.len(),
{
    if content.len() > 0 {
        lemma_children_section(t, content.drop_last());
    }
}

proof fn lemma_rows(t: Trail, rows: Seq<Row>)
    ensures
        continues(t, t.rows(rows)),
        t.section + rows_section_breaks(rows) <= usize::MAX ==> t.rows(rows).section == t.section
            + rows_section_breaks(rows),
    decreases rows,
{
    if rows.len() > 0 {
        lemma_rows(t, rows.drop_last());
        lemma_cells(t.rows(rows.drop_last()), rows.last().cells@);
        lemma_join(t, t.rows(rows.drop_last()), t.rows(rows));
    } else {
        lemma_still(t, t);
    }
}

proof fn lemma_cells(t: Trail, cells: Seq<Cell>)
    ensures
        continues(t, t.cells(cells)),
        t.section + cells_section_breaks(cells) <= usize::MAX ==> t.cells(cells).section
            == t.section + cells_section_breaks(cells),
    decreases cells,
{
    if cells.len() > 0 {
        lemma_cells(t, cells.drop_last());
        lemma_blocks(t.cells(cells.drop_last()), cells.last().blocks@);
        lemma_join(t, t.cells(cells.drop_last()), t.cells(cells));
    } else {
        lemma_still(t, t);
    }
}

proof fn lemma_blocks(t: Trail, blocks: Seq<Block>)
    ensures
        continues(t, t.blocks(blocks)),
        t.section + section_breaks(blocks) <= usize::MAX ==> t.blocks(blocks).section == t.section
            + section_breaks(blocks),
    decreases blocks,
{
    if blocks.len() > 0 {
        lemma_blocks(t, blocks.drop_last());
        lemma_block(t.blocks(blocks.drop_last()), blocks.last());
        lemma_join(t, t.blocks(blocks.drop_last()), t.blocks(blocks));
    } else {
        lemma_still(t, t);
    }
}

proof fn lemma_blocks_joined(t: Trail, a: Seq<Block>, b: Seq<Block>)
    ensures
        t.blocks(a + b) == t.blocks(a).blocks(b),
    decreases b.len(),
{
    if b.len() == 0 {
        assert(a + b =~= a);
    } else {
        lemma_blocks_joined(t, a, b.drop_last());
        assert((a + b).drop_last() =~= a + b.drop_last());
        assert((a + b).last() == b.last());
    }
}

/// The number of section breaks in a block.
pub open spec fn block_section_breaks(block: Block) -> nat
    decreases block,
{
    match block {
        Block::SectionBreak(_) => 1,
        Block::Table(tbl) => rows_section_breaks(tbl.rows@),
        _ => 0,
    }
}

/// The number of section breaks in blocks, those inside tables with them.
pub open spec fn section_breaks(blocks: Seq<Block>) -> nat
    decreases blocks,
{
    if blocks.len() == 0 {
        0
    } else {
        section_breaks(blocks.drop_last()) + block_section_breaks(blocks.last())
    }
}

/// The number of section breaks in rows.
pub open spec fn rows_section_breaks(rows: Seq<Row>) -> nat
    decreases rows,
{
    if rows.len() == 0 {
        0
    } else {
        rows_section_breaks(rows.drop_last()) + cells_section_breaks(rows.last().cells@)
    }
}

/// The number of section breaks in cells.
pub open spec fn cells_section_breaks(cells: Seq<Cell>) -> nat
    decreases cells,
{
    if cells.len() == 0 {
        0
    } else {
        cells_section_breaks(cells.drop_last()) + section_breaks(cells.last().blocks@)
    }
}

/// Positions follow the document: the walk never goes back a page, it keeps the
/// tags that it placed, and of two tags that it adds the later one is never on an
/// earlier page nor further up on the same one. Documents with as many pages as can
/// be counted are left out of the last claim.
pub proof fn positions_follow_the_document(t: Trail, blocks: Seq<Block>)
    requires
        t.page >= 1,
    ensures
        t.page <= t.blocks(blocks).page,
        t.out.len() <= t.blocks(blocks).out.len(),
        t.blocks(blocks).out.take(t.out.len() as int) == t.out,
        t.blocks(blocks).page < usize::MAX ==> in_page_order(
            t.blocks(blocks).out.skip(t.out.len() as int),
        ),
{
    let u = t.blocks(blocks);
    let n = t.out.len() as int;
    lemma_blocks(t, blocks);
    assert(orderly(t, n));
    if u.page < usize::MAX {
        assert(orderly(u, n));
        let added = u.out.skip(n);
        assert forall|i: int, j: int| 0 <= i <= j < added.len() implies not_behind(
            #[trigger] added[i],
            #[trigger] added[j],
        ) by {
            assert(not_behind(u.out[n + i], u.out[n + j]));
        }
    }
}

/// The section of the walk grows by the number of section breaks, those inside
/// tables with them.
pub proof fn sections_are_counted(t: Trail, blocks: Seq<Block>)
    requires
        t.section + section_breaks(blocks) <= usize::MAX,
    ensures
        t.blocks(blocks).section == t.section + section_breaks(blocks),
{
    lemma_blocks(t, blocks);
}

/// The place of an element is where its first start tag stands: a later one, and
/// anything else that follows, leaves it as it is.
pub proof fn first_places_are_kept(
    t: Trail,
    before: Seq<Block>,
    start: Tag,
    after: Seq<Block>,
    known: u128,
)
    ensures
        t.map.contains_key(known) ==> t.blocks(before).map.contains_key(known) && t.blocks(
            before,
        ).map[known] == t.map[known],
        start matches Tag::Start { location: Some(loc), .. } ==> {
            let met = t.blocks(before);
            let end = t.blocks(before + seq![Block::Tag(start)] + after);
            &&& end.map.contains_key(loc.0)
            &&& end.map[loc.0] == (if met.map.contains_key(loc.0) {
                met.map[loc.0]
            } else {
                (met.page, met.section)
            })
        },
{
    let one = seq![Block::Tag(start)];
    lemma_blocks(t, before);
    lemma_blocks_joined(t, before, one);
    lemma_blocks_joined(t, before + one, after);
    lemma_blocks(t.blocks(before + one), after);
    assert(one.drop_last() =~= Seq::<Block>::empty());
    reveal_with_fuel(Trail::blocks, 2);
    if let Tag::Start { location: Some(loc), .. } = start {
        assert(t.blocks(before + one) == t.blocks(before).tag(start));
        assert(t.blocks(before + one).map.contains_key(loc.0));
    }
}

/// A weak page break breaks only when content precedes it on the page: on a page
/// that a break of any kind opened it changes nothing, however many follow one
/// another.
pub proof fn weak_breaks_need_content(t: Trail)
    ensures
        !t.page_content ==> t.block(Block::WeakPageBreak) == t,
        !t.turn().page_content,
        !t.block(Block::WeakPageBreak).page_content,
{
}

} // verus!
