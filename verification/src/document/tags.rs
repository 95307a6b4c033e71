//! Introspection tags of the lowered document and their synthetic positions.
//!
//! A flowing document has no layout positions at export time. Tags get the page
//! and section that explicit breaks put them on, and a block position that only
//! keeps their order.

use vstd::prelude::*;

use rustc_hash::FxHashMap;

use crate::dom::{Block, Cell, Para, ParaChild, Row, Run, Tag};
use crate::fxmap::{fx_get, fx_insert};

verus! {

/// The tags of paragraph content, in order.
pub open spec fn child_tags(content: Seq<ParaChild>) -> Seq<Tag>
    decreases content.len(),
{
    if content.len() == 0 {
        Seq::empty()
    } else {
        let before = child_tags(content.drop_last());
        match content.last() {
            ParaChild::Tag(tag) => before.push(tag),
            _ => before,
        }
    }
}

/// The tags of paragraphs, in order.
pub open spec fn paras_tags(ps: Seq<Para>) -> Seq<Tag>
    decreases ps.len(),
{
    if ps.len() == 0 {
        Seq::empty()
    } else {
        paras_tags(ps.drop_last()) + child_tags(ps.last().content@)
    }
}

/// The tags of one block.
pub open spec fn block_tags(block: Block) -> Seq<Tag>
    decreases block,
{
    match block {
        Block::Tag(tag) => seq![tag],
        Block::Para(para) => child_tags(para.content@),
        Block::Table(tbl) => rows_tags(tbl.rows@),
        Block::Toc(toc) => paras_tags(toc.entries@),
        _ => Seq::empty(),
    }
}

/// The tags of blocks, in document order.
pub open spec fn blocks_tags(blocks: Seq<Block>) -> Seq<Tag>
    decreases blocks,
{
    if blocks.len() == 0 {
        Seq::empty()
    } else {
        blocks_tags(blocks.drop_last()) + block_tags(blocks.last())
    }
}

/// The tags of rows, in document order.
pub open spec fn rows_tags(rows: Seq<Row>) -> Seq<Tag>
    decreases rows,
{
    if rows.len() == 0 {
        Seq::empty()
    } else {
        rows_tags(rows.drop_last()) + cells_tags(rows.last().cells@)
    }
}

/// The tags of cells, in document order.
pub open spec fn cells_tags(cells: Seq<Cell>) -> Seq<Tag>
    decreases cells,
{
    if cells.len() == 0 {
        Seq::empty()
    } else {
        cells_tags(cells.drop_last()) + blocks_tags(cells.last().blocks@)
    }
}

fn push_child_tags(content: &Vec<ParaChild>, out: &mut Vec<Tag>)
    ensures
        final(out)@ == old(out)@ + child_tags(content@),
{
    let mut i: usize = 0;
    assert(out@ =~= old(out)@ + child_tags(content@.take(0)));
    while i < content.len()
        invariant
            i <= content.len(),
            out@ == old(out)@ + child_tags(content@.take(i as int)),
        decreases content.len() - i,
    {
        assert(content@.take(i + 1).drop_last() =~= content@.take(i as int));
        if let ParaChild::Tag(tag) = &content[i] {
            out.push(*tag);
        }
        assert(out@ =~= old(out)@ + child_tags(content@.take(i + 1)));
        i = i + 1;
    }
    assert(content@.take(i as int) =~= content@);
}

fn push_paras_tags(ps: &Vec<Para>, out: &mut Vec<Tag>)
    ensures
        final(out)@ == old(out)@ + paras_tags(ps@),
{
    let mut i: usize = 0;
    assert(out@ =~= old(out)@ + paras_tags(ps@.take(0)));
    while i < ps.len()
        invariant
            i <= ps.len(),
            out@ == old(out)@ + paras_tags(ps@.take(i as int)),
        decreases ps.len() - i,
    {
        assert(ps@.take(i + 1).drop_last() =~= ps@.take(i as int));
        push_child_tags(&ps[i].content, out);
        assert(out@ =~= old(out)@ + paras_tags(ps@.take(i + 1)));
        i = i + 1;
    }
    assert(ps@.take(i as int) =~= ps@);
}

fn push_block_tags(block: &Block, out: &mut Vec<Tag>)
    ensures
        final(out)@ == old(out)@ + block_tags(*block),
    decreases *block,
{
    match block {
        Block::Tag(tag) => {
            out.push(*tag);
            assert(out@ =~= old(out)@ + seq![*tag]);
        }
        Block::Para(para) => {
            push_child_tags(&para.content, out);
        }
        Block::Table(tbl) => {
            push_rows_tags(&tbl.rows, out);
        }
        Block::Toc(toc) => {
            push_paras_tags(&toc.entries, out);
        }
        _ => {
            assert(out@ =~= old(out)@ + Seq::<Tag>::empty());
        }
    }
}

/// Collects the introspection tags of blocks, in document order.
pub fn collect_tags(blocks: &Vec<Block>, out: &mut Vec<Tag>)
    ensures
        final(out)@ == old(out)@ + blocks_tags(blocks@),
    decreases blocks@,
{
    let mut i: usize = 0;
    assert(out@ =~= old(out)@ + blocks_tags(blocks@.take(0)));
    while i < blocks.len()
        invariant
            i <= blocks.len(),
            out@ == old(out)@ + blocks_tags(blocks@.take(i as int)),
        decreases blocks.len() - i,
    {
        assert(blocks@.take(i + 1).drop_last() =~= blocks@.take(i as int));
        proof {
            assert(decreases_to!(blocks@ => blocks@[i as int]));
        }
        push_block_tags(&blocks[i], out);
        assert(out@ =~= old(out)@ + blocks_tags(blocks@.take(i + 1)));
        i = i + 1;
    }
    assert(blocks@.take(i as int) =~= blocks@);
}

fn push_rows_tags(rows: &Vec<Row>, out: &mut Vec<Tag>)
    ensures
        final(out)@ == old(out)@ + rows_tags(rows@),
    decreases rows@,
{
    let mut i: usize = 0;
    assert(out@ =~= old(out)@ + rows_tags(rows@.take(0)));
    while i < rows.len()
        invariant
            i <= rows.len(),
            out@ == old(out)@ + rows_tags(rows@.take(i as int)),
        decreases rows.len() - i,
    {
        assert(rows@.take(i + 1).drop_last() =~= rows@.take(i as int));
        proof {
            assert(decreases_to!(rows@ => rows@[i as int]));
        }
        push_cells_tags(&rows[i].cells, out);
        assert(out@ =~= old(out)@ + rows_tags(rows@.take(i + 1)));
        i = i + 1;
    }
    assert(rows@.take(i as int) =~= rows@);
}

fn push_cells_tags(cells: &Vec<Cell>, out: &mut Vec<Tag>)
    ensures
        final(out)@ == old(out)@ + cells_tags(cells@),
    decreases cells@,
{
    let mut i: usize = 0;
    assert(out@ =~= old(out)@ + cells_tags(cells@.take(0)));
    while i < cells.len()
        invariant
            i <= cells.len(),
            out@ == old(out)@ + cells_tags(cells@.take(i as int)),
        decreases cells.len() - i,
    {
        assert(cells@.take(i + 1).drop_last() =~= cells@.take(i as int));
        proof {
            assert(decreases_to!(cells@ => cells@[i as int]));
        }
        collect_tags(&cells[i].blocks, out);
        assert(out@ =~= old(out)@ + cells_tags(cells@.take(i + 1)));
        i = i + 1;
    }
    assert(cells@.take(i as int) =~= cells@);
}

// ---------------------------------------------------------------------------
// Synthetic positions.
// ---------------------------------------------------------------------------

/// A synthetic position: a page, counted from one, and a block index on it. A
/// block takes twenty points of page height.
#[derive(Debug, Copy, Clone, PartialEq, Eq, Structural)]
pub struct Position {
    pub page: usize,
    pub block: usize,
}

/// A tag with its synthetic position.
#[derive(Debug, Copy, Clone, PartialEq, Eq, Structural)]
pub struct PositionedTag {
    pub tag: Tag,
    pub position: Position,
}

/// The synthetic position of a block on a page.
pub open spec fn position_at(page: usize, block: usize) -> Position {
    Position {
        page: if page < 1 {
            1
        } else {
            page
        },
        block,
    }
}

/// The synthetic position of a block on a page.
pub fn synthetic_position(page: usize, block: usize) -> (r: Position)
    ensures
        r == position_at(page, block),
{
    Position {
        page: if page < 1 {
            1
        } else {
            page
        },
        block,
    }
}

/// The next value of a counter that stops at the largest one.
pub open spec fn next(n: usize) -> usize {
    if n < usize::MAX {
        (n + 1) as usize
    } else {
        n
    }
}

fn bump(n: usize) -> (r: usize)
    ensures
        r == next(n),
{
    if n < usize::MAX {
        n + 1
    } else {
        n
    }
}

/// The state of the walk: the page and section reached, whether content came
/// since the start or the last weak break, whether the page holds content, the
/// next block position, the page and section of each located element, and the
/// positioned tags.
pub struct Trail {
    pub page: usize,
    pub section: usize,
    pub seen_content: bool,
    pub page_content: bool,
    pub y: usize,
    pub map: Map<u128, (usize, usize)>,
    pub out: Seq<PositionedTag>,
}

impl Trail {
    /// The state after a tag. The first start tag of a location decides its page
    /// and section.
    pub open spec fn tag(self, tag: Tag) -> Trail {
        let map = match tag {
            Tag::Start { location: Some(loc), .. } => if self.map.contains_key(loc.0) {
                self.map
            } else {
                self.map.insert(loc.0, (self.page, self.section))
            },
            _ => self.map,
        };
        Trail {
            map,
            out: self.out.push(
                PositionedTag { tag, position: position_at(self.page, self.y) },
            ),
            ..self
        }
    }

    /// The state after tags.
    pub open spec fn tags(self, tags: Seq<Tag>) -> Trail
        decreases tags.len(),
    {
        if tags.len() == 0 {
            self
        } else {
            self.tags(tags.drop_last()).tag(tags.last())
        }
    }

    /// The state on the next page, which is empty.
    pub open spec fn turn(self) -> Trail {
        Trail { page: next(self.page), page_content: false, y: 0, ..self }
    }

    /// The state behind a block that takes space.
    pub open spec fn advance(self) -> Trail {
        Trail { y: next(self.y), ..self }
    }

    /// The state with content on the page.
    pub open spec fn content(self) -> Trail {
        Trail { seen_content: true, page_content: true, ..self }
    }

    /// The state after one paragraph child. A hard page break turns the page
    /// once content came, and also when the page is still empty.
    pub open spec fn child(self, child: ParaChild) -> Trail {
        match child {
            ParaChild::Tag(tag) => self.tag(tag),
            ParaChild::Run(Run::PageBreak) => if self.seen_content {
                self.turn()
            } else {
                self
            },
            _ => self.content(),
        }
    }

    /// The state after paragraph content.
    pub open spec fn children(self, content: Seq<ParaChild>) -> Trail
        decreases content.len(),
    {
        if content.len() == 0 {
            self
        } else {
            self.children(content.drop_last()).child(content.last())
        }
    }

    /// The state after one block.
    pub open spec fn block(self, block: Block) -> Trail
        decreases block,
    {
        match block {
            // A weak break turns only a page that holds content, and lands on
            // a fresh one, so a run of them turns once.
            Block::WeakPageBreak => if self.page_content {
                Trail { seen_content: false, ..self.turn() }
            } else {
                self
            },
            Block::Tag(tag) => self.tag(tag),
            Block::Para(para) => {
                let after = self.children(para.content@);
                if has_visible(para.content@) {
                    after.advance()
                } else {
                    after
                }
            },
            Block::Table(tbl) => self.content().rows(tbl.rows@).advance(),
            Block::FlowSpace { .. } => self.advance(),
            Block::Toc(toc) => self.content().tags(paras_tags(toc.entries@)).advance(),
            Block::SectionBreak(_) => {
                let turned = if self.seen_content {
                    self.turn()
                } else {
                    self
                };
                Trail { section: next(self.section), ..turned }
            },
        }
    }

    /// The state after blocks.
    pub open spec fn blocks(self, blocks: Seq<Block>) -> Trail
        decreases blocks,
    {
        if blocks.len() == 0 {
            self
        } else {
            self.blocks(blocks.drop_last()).block(blocks.last())
        }
    }

    /// The state after rows.
    pub open spec fn rows(self, rows: Seq<Row>) -> Trail
        decreases rows,
    {
        if rows.len() == 0 {
            self
        } else {
            self.rows(rows.drop_last()).cells(rows.last().cells@)
        }
    }

    /// The state after cells.
    pub open spec fn cells(self, cells: Seq<Cell>) -> Trail
        decreases cells,
    {
        if cells.len() == 0 {
            self
        } else {
            self.cells(cells.drop_last()).blocks(cells.last().blocks@)
        }
    }
}

/// Whether a paragraph child is neither a tag nor a page break.
pub open spec fn is_visible(child: ParaChild) -> bool {
    match child {
        ParaChild::Tag(_) => false,
        ParaChild::Run(Run::PageBreak) => false,
        _ => true,
    }
}

/// Whether paragraph content holds more than tags and page breaks.
pub open spec fn has_visible(content: Seq<ParaChild>) -> bool {
    exists|i: int| 0 <= i < content.len() && is_visible(#[trigger] content[i])
}

/// The walk over the lowered document that positions its tags.
pub struct TagWalk {
    pub page: usize,
    pub section: usize,
    /// Whether content came since the start or the last weak break.
    pub seen_content: bool,
    /// Whether the page holds content.
    pub page_content: bool,
    pub y: usize,
    /// The page and section of each located element.
    pub map: FxHashMap<u128, (usize, usize)>,
    /// The positioned tags, in document order.
    pub out: Vec<PositionedTag>,
}

impl View for TagWalk {
    type V = Trail;

    open spec fn view(&self) -> Trail {
        Trail {
            page: self.page,
            section: self.section,
            seen_content: self.seen_content,
            page_content: self.page_content,
            y: self.y,
            map: self.map@,
            out: self.out@,
        }
    }
}

impl TagWalk {
    /// A walk at the start of the first page.
    pub fn new() -> (r: Self)
        ensures
            r@ == (Trail {
                page: 1,
                section: 0,
                seen_content: false,
                page_content: false,
                y: 0,
                map: Map::empty(),
                out: Seq::empty(),
            }),
    {
        TagWalk {
            page: 1,
            section: 0,
            seen_content: false,
            page_content: false,
            y: 0,
            map: crate::fxmap::fx_new(),
            out: Vec::new(),
        }
    }

    fn record(&mut self, tag: Tag)
        ensures
            final(self)@ == old(self)@.tag(tag),
    {
        if let Tag::Start { location: Some(loc), .. } = tag {
            if fx_get(&self.map, loc.0).is_none() {
                fx_insert(&mut self.map, loc.0, (self.page, self.section));
            }
        }
        self.out.push(PositionedTag { tag, position: synthetic_position(self.page, self.y) });
    }

    fn record_all(&mut self, tags: &Vec<Tag>)
        ensures
            final(self)@ == old(self)@.tags(tags@),
    {
        let mut i: usize = 0;
        while i < tags.len()
            invariant
                i <= tags.len(),
                self@ == old(self)@.tags(tags@.take(i as int)),
            decreases tags.len() - i,
        {
            assert(tags@.take(i + 1).drop_last() =~= tags@.take(i as int));
            self.record(tags[i]);
            i = i + 1;
        }
        assert(tags@.take(i as int) =~= tags@);
    }

    fn turn_page(&mut self)
        ensures
            final(self)@ == old(self)@.turn(),
    {
        self.page = bump(self.page);
        self.page_content = false;
        self.y = 0;
    }

    fn show(&mut self)
        ensures
            final(self)@ == old(self)@.content(),
    {
        self.seen_content = true;
        self.page_content = true;
    }

    fn walk_para(&mut self, para: &Para)
        ensures
            final(self)@ == ({
                let after = old(self)@.children(para.content@);
                if has_visible(para.content@) {
                    after.advance()
                } else {
                    after
                }
            }),
    {
        let mut visible: bool = false;
        let mut i: usize = 0;
        while i < para.content.len()
            invariant
                i <= para.content.len(),
                self@ == old(self)@.children(para.content@.take(i as int)),
                visible == has_visible(para.content@.take(i as int)),
            decreases para.content.len() - i,
        {
            let ghost content = para.content@;
            assert(content.take(i + 1).drop_last() =~= content.take(i as int));
            assert(content.take(i + 1).last() == content[i as int]);
            let ghost was = visible;
            match &para.content[i] {
                ParaChild::Tag(tag) => {
                    self.record(*tag);
                }
                ParaChild::Run(Run::PageBreak) => {
                    if self.seen_content {
                        self.turn_page();
                    }
                }
                _ => {
                    visible = true;
                    self.show();
                }
            }
            proof {
                if was {
                    let k = choose|k: int|
                        0 <= k < content.take(i as int).len() && is_visible(
                            #[trigger] content.take(i as int)[k],
                        );
                    assert(is_visible(content.take(i + 1)[k]));
                }
                if is_visible(content[i as int]) {
                    assert(is_visible(content.take(i + 1)[i as int]));
                } else if has_visible(content.take(i + 1)) {
                    let k = choose|k: int|
                        0 <= k < content.take(i + 1).len() && is_visible(
                            #[trigger] content.take(i + 1)[k],
                        );
                    assert(is_visible(content.take(i as int)[k]));
                }
            }
            i = i + 1;
        }
        assert(para.content@.take(i as int) =~= para.content@);
        if visible {
            self.y = bump(self.y);
        }
    }

    fn walk_block(&mut self, block: &Block)
        ensures
            final(self)@ == old(self)@.block(*block),
        decreases *block,
    {
        match block {
            Block::WeakPageBreak => {
                if self.page_content {
                    self.turn_page();
                    self.seen_content = false;
                }
            }
            Block::Tag(tag) => {
                self.record(*tag);
            }
            Block::Para(para) => {
                self.walk_para(para);
            }
            Block::Table(tbl) => {
                self.show();
                self.walk_rows(&tbl.rows);
                self.y = bump(self.y);
            }
            Block::FlowSpace { .. } => {
                self.y = bump(self.y);
            }
            Block::Toc(toc) => {
                self.show();
                let mut tags: Vec<Tag> = Vec::new();
                push_paras_tags(&toc.entries, &mut tags);
                assert(tags@ =~= paras_tags(toc.entries@));
                self.record_all(&tags);
                self.y = bump(self.y);
            }
            Block::SectionBreak(_) => {
                if self.seen_content {
                    self.turn_page();
                }
                self.section = bump(self.section);
            }
        }
    }

    /// Positions the tags of blocks: explicit page breaks and section breaks
    /// advance the page.
    pub fn collect_positioned_tags(&mut self, blocks: &Vec<Block>)
        ensures
            final(self)@ == old(self)@.blocks(blocks@),
        decreases blocks@,
    {
        let mut i: usize = 0;
        while i < blocks.len()
            invariant
                i <= blocks.len(),
                self@ == old(self)@.blocks(blocks@.take(i as int)),
            decreases blocks.len() - i,
        {
            assert(blocks@.take(i + 1).drop_last() =~= blocks@.take(i as int));
            proof {
                assert(decreases_to!(blocks@ => blocks@[i as int]));
            }
            self.walk_block(&blocks[i]);
            i = i + 1;
        }
        assert(blocks@.take(i as int) =~= blocks@);
    }

    fn walk_rows(&mut self, rows: &Vec<Row>)
        ensures
            final(self)@ == old(self)@.rows(rows@),
        decreases rows@,
    {
        let mut i: usize = 0;
        while i < rows.len()
            invariant
                i <= rows.len(),
                self@ == old(self)@.rows(rows@.take(i as int)),
            decreases rows.len() - i,
        {
            assert(rows@.take(i + 1).drop_last() =~= rows@.take(i as int));
            proof {
                assert(decreases_to!(rows@ => rows@[i as int]));
            }
            self.walk_cells(&rows[i].cells);
            i = i + 1;
        }
        assert(rows@.take(i as int) =~= rows@);
    }

    fn walk_cells(&mut self, cells: &Vec<Cell>)
        ensures
            final(self)@ == old(self)@.cells(cells@),
        decreases cells@,
    {
        let mut i: usize = 0;
        while i < cells.len()
            invariant
                i <= cells.len(),
                self@ == old(self)@.cells(cells@.take(i as int)),
            decreases cells.len() - i,
        {
            assert(cells@.take(i + 1).drop_last() =~= cells@.take(i as int));
            proof {
                assert(decreases_to!(cells@ => cells@[i as int]));
            }
            self.collect_positioned_tags(&cells[i].blocks);
            i = i + 1;
        }
        assert(cells@.take(i as int) =~= cells@);
    }

    /// Appends tags from outside the flow behind the last position reached, one
    /// block position each.
    pub fn append_positioned_tags(&mut self, tags: &Vec<Tag>)
        ensures
            final(self)@ == appended(old(self)@, tags@),
    {
        let mut i: usize = 0;
        while i < tags.len()
            invariant
                i <= tags.len(),
                self@ == appended(old(self)@, tags@.take(i as int)),
            decreases tags.len() - i,
        {
            assert(tags@.take(i + 1).drop_last() =~= tags@.take(i as int));
            self.out.push(
                PositionedTag { tag: tags[i], position: synthetic_position(self.page, self.y) },
            );
            self.y = bump(self.y);
            i = i + 1;
        }
        assert(tags@.take(i as int) =~= tags@);
    }
}

/// The state after tags from outside the flow.
pub open spec fn appended(t: Trail, tags: Seq<Tag>) -> Trail
    decreases tags.len(),
{
    if tags.len() == 0 {
        t
    } else {
        let before = appended(t, tags.drop_last());
        Trail {
            out: before.out.push(
                PositionedTag { tag: tags.last(), position: position_at(before.page, before.y) },
            ),
            y: next(before.y),
            ..before
        }
    }
}

/// The tags that were positioned.
pub open spec fn tags_placed(out: Seq<PositionedTag>) -> Seq<Tag> {
    out.map_values(|p: PositionedTag| p.tag)
}

proof fn lemma_tag_placed(t: Trail, tag: Tag)
    ensures
        tags_placed(t.tag(tag).out) == tags_placed(t.out).push(tag),
{
    assert(tags_placed(t.tag(tag).out) =~= tags_placed(t.out).push(tag));
}

proof fn lemma_tags_placed(t: Trail, tags: Seq<Tag>)
    ensures
        tags_placed(t.tags(tags).out) == tags_placed(t.out) + tags,
    decreases tags.len(),
{
    if tags.len() > 0 {
        lemma_tags_placed(t, tags.drop_last());
        lemma_tag_placed(t.tags(tags.drop_last()), tags.last());
        assert(tags_placed(t.tags(tags).out) =~= tags_placed(t.out) + tags);
    } else {
        assert(tags_placed(t.out) + tags =~= tags_placed(t.out));
    }
}

proof fn lemma_children_placed(t: Trail, content: Seq<ParaChild>)
    ensures
        tags_placed(t.children(content).out) == tags_placed(t.out) + child_tags(content),
    decreases content.len(),
{
    if content.len() > 0 {
        lemma_children_placed(t, content.drop_last());
        let before = t.children(content.drop_last());
        match content.last() {
            ParaChild::Tag(tag) => {
                lemma_tag_placed(before, tag);
            },
            _ => {},
        }
        assert(tags_placed(t.children(content).out) =~= tags_placed(t.out) + child_tags(content));
    } else {
        assert(tags_placed(t.out) + child_tags(content) =~= tags_placed(t.out));
    }
}

proof fn lemma_block_placed(t: Trail, block: Block)
    ensures
        tags_placed(t.block(block).out) == tags_placed(t.out) + block_tags(block),
    decreases block,
{
    match block {
        Block::Tag(tag) => {
            lemma_tag_placed(t, tag);
            assert(tags_placed(t.out).push(tag) =~= tags_placed(t.out) + block_tags(block));
        },
        Block::Para(para) => {
            lemma_children_placed(t, para.content@);
        },
        Block::Table(tbl) => {
            lemma_rows_placed(t.content(), tbl.rows@);
        },
        Block::Toc(toc) => {
            lemma_tags_placed(t.content(), paras_tags(toc.entries@));
        },
        _ => {
            assert(tags_placed(t.out) + block_tags(block) =~= tags_placed(t.out));
        },
    }
}

proof fn lemma_rows_placed(t: Trail, rows: Seq<Row>)
    ensures
        tags_placed(t.rows(rows).out) == tags_placed(t.out) + rows_tags(rows),
    decreases rows,
{
    if rows.len() > 0 {
        lemma_rows_placed(t, rows.drop_last());
        lemma_cells_placed(t.rows(rows.drop_last()), rows.last().cells@);
        assert(tags_placed(t.rows(rows).out) =~= tags_placed(t.out) + rows_tags(rows));
    } else {
        assert(tags_placed(t.out) + rows_tags(rows) =~= tags_placed(t.out));
    }
}

proof fn lemma_cells_placed(t: Trail, cells: Seq<Cell>)
    ensures
        tags_placed(t.cells(cells).out) == tags_placed(t.out) + cells_tags(cells),
    decreases cells,
{
    if cells.len() > 0 {
        lemma_cells_placed(t, cells.drop_last());
        every_tag_is_positioned(t.cells(cells.drop_last()), cells.last().blocks@);
        assert(tags_placed(t.cells(cells).out) =~= tags_placed(t.out) + cells_tags(cells));
    } else {
        assert(tags_placed(t.out) + cells_tags(cells) =~= tags_placed(t.out));
    }
}

/// Every tag of the blocks gets a position, in document order: positioning walks
/// the same tags that collecting them yields, and neither drops nor repeats one.
pub proof fn every_tag_is_positioned(t: Trail, blocks: Seq<Block>)
    ensures
        tags_placed(t.blocks(blocks).out) == tags_placed(t.out) + blocks_tags(blocks),
    decreases blocks,
{
    if blocks.len() > 0 {
        every_tag_is_positioned(t, blocks.drop_last());
        lemma_block_placed(t.blocks(blocks.drop_last()), blocks.last());
        assert(tags_placed(t.blocks(blocks).out) =~= tags_placed(t.out) + blocks_tags(blocks));
    } else {
        assert(tags_placed(t.out) + blocks_tags(blocks) =~= tags_placed(t.out));
    }
}

} // verus!
