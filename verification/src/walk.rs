//! Walks over the paragraphs of a block tree.

use vstd::prelude::*;

use crate::dom::{Block, Cell, Drawing, GroupChild, Para, ParaChild, Row, Run, TextBox, Toc};

verus! {

/// The paragraphs of a block tree in document order: those that stand in it
/// directly and those in the cells of its tables.
pub open spec fn paras(blocks: Seq<Block>) -> Seq<Para>
    decreases blocks,
{
    if blocks.len() == 0 {
        Seq::empty()
    } else {
        paras(blocks.drop_last()) + block_paras(blocks.last())
    }
}

/// The paragraphs of one block.
pub open spec fn block_paras(block: Block) -> Seq<Para>
    decreases block,
{
    match block {
        Block::Para(para) => seq![para],
        Block::Table(tbl) => rows_paras(tbl.rows@),
        _ => Seq::empty(),
    }
}

/// The paragraphs of a table's rows.
pub open spec fn rows_paras(rows: Seq<Row>) -> Seq<Para>
    decreases rows,
{
    if rows.len() == 0 {
        Seq::empty()
    } else {
        rows_paras(rows.drop_last()) + cells_paras(rows.last().cells@)
    }
}

/// The paragraphs of a row's cells.
pub open spec fn cells_paras(cells: Seq<Cell>) -> Seq<Para>
    decreases cells,
{
    if cells.len() == 0 {
        Seq::empty()
    } else {
        cells_paras(cells.drop_last()) + paras(cells.last().blocks@)
    }
}

/// The values behind a sequence of references.
pub open spec fn targets(refs: Seq<&Para>) -> Seq<Para> {
    refs.map_values(|p: &Para| *p)
}

proof fn lemma_take_step<T>(s: Seq<T>, i: int)
    requires
        0 <= i < s.len(),
    ensures
        s.take(i + 1).drop_last() == s.take(i),
        s.take(i + 1).last() == s[i],
{
    assert(s.take(i + 1).drop_last() =~= s.take(i));
}

/// Collects the paragraphs of a block tree in document order.
pub fn collect_paras<'a>(blocks: &'a Vec<Block>, out: &mut Vec<&'a Para>)
    ensures
        targets(final(out)@) == targets(old(out)@) + paras(blocks@),
    decreases blocks@,
{
    let mut i: usize = 0;
    assert(paras(blocks@.take(0)) =~= Seq::<Para>::empty());
    assert(targets(out@) =~= targets(old(out)@) + paras(blocks@.take(0)));
    while i < blocks.len()
        invariant
            i <= blocks.len(),
            targets(out@) == targets(old(out)@) + paras(blocks@.take(i as int)),
        decreases blocks.len() - i,
    {
        let ghost before = targets(out@);
        proof {
            lemma_take_step(blocks@, i as int);
            assert(decreases_to!(blocks@ => blocks@[i as int]));
        }
        match &blocks[i] {
            Block::Para(para) => {
                out.push(para);
                assert(targets(out@) =~= before + seq![*para]);
            }
            Block::Table(tbl) => {
                collect_rows(&tbl.rows, out);
            }
            _ => {
                assert(before =~= before + Seq::<Para>::empty());
            }
        }
        assert(targets(out@) == before + block_paras(blocks@[i as int]));
        assert(targets(out@) =~= targets(old(out)@) + paras(blocks@.take(i + 1)));
        i = i + 1;
    }
    assert(blocks@.take(i as int) =~= blocks@);
}

fn collect_rows<'a>(rows: &'a Vec<Row>, out: &mut Vec<&'a Para>)
    ensures
        targets(final(out)@) == targets(old(out)@) + rows_paras(rows@),
    decreases rows@,
{
    let mut i: usize = 0;
    assert(targets(out@) =~= targets(old(out)@) + rows_paras(rows@.take(0)));
    while i < rows.len()
        invariant
            i <= rows.len(),
            targets(out@) == targets(old(out)@) + rows_paras(rows@.take(i as int)),
        decreases rows.len() - i,
    {
        proof {
            lemma_take_step(rows@, i as int);
            assert(decreases_to!(rows@ => rows@[i as int]));
        }
        collect_cells(&rows[i].cells, out);
        assert(targets(out@) =~= targets(old(out)@) + rows_paras(rows@.take(i + 1)));
        i = i + 1;
    }
    assert(rows@.take(i as int) =~= rows@);
}

fn collect_cells<'a>(cells: &'a Vec<Cell>, out: &mut Vec<&'a Para>)
    ensures
        targets(final(out)@) == targets(old(out)@) + cells_paras(cells@),
    decreases cells@,
{
    let mut i: usize = 0;
    assert(targets(out@) =~= targets(old(out)@) + cells_paras(cells@.take(0)));
    while i < cells.len()
        invariant
            i <= cells.len(),
            targets(out@) == targets(old(out)@) + cells_paras(cells@.take(i as int)),
        decreases cells.len() - i,
    {
        proof {
            lemma_take_step(cells@, i as int);
            assert(decreases_to!(cells@ => cells@[i as int]));
        }
        collect_paras(&cells[i].blocks, out);
        assert(targets(out@) =~= targets(old(out)@) + cells_paras(cells@.take(i + 1)));
        i = i + 1;
    }
    assert(cells@.take(i as int) =~= cells@);
}

// ---------------------------------------------------------------------------
// Tables of contents and runs, at any depth.
// ---------------------------------------------------------------------------

/// One stop of the deep walk.
#[derive(Copy, Clone)]
pub enum Visit<'a> {
    Toc(&'a Toc),
    Run(&'a Run),
}

/// What a stop of the deep walk is.
pub enum Node {
    Toc(Toc),
    Run(Run),
}

/// What the stops are.
pub open spec fn nodes(visits: Seq<Visit>) -> Seq<Node> {
    visits.map_values(
        |v: Visit|
            match v {
                Visit::Toc(t) => Node::Toc(*t),
                Visit::Run(r) => Node::Run(*r),
            },
    )
}

/// The tables of contents and the runs of blocks, in document order: each table
/// of contents before its entries, each field before its cached result, each
/// drawing before the text of its shapes.
pub open spec fn blocks_nodes(s: Seq<Block>) -> Seq<Node>
    decreases s,
{
    if s.len() == 0 {
        Seq::empty()
    } else {
        blocks_nodes(s.drop_last()) + block_nodes(s.last())
    }
}

/// The stops of one block.
pub open spec fn block_nodes(block: Block) -> Seq<Node>
    decreases block,
{
    match block {
        Block::Para(para) => children_nodes(para.content@),
        Block::Table(tbl) => rows_nodes(tbl.rows@),
        Block::Toc(toc) => seq![Node::Toc(toc)] + paras_nodes(toc.entries@) + runs_nodes(
            toc.fallback@,
        ),
        _ => Seq::empty(),
    }
}

/// The stops of rows.
pub open spec fn rows_nodes(s: Seq<Row>) -> Seq<Node>
    decreases s,
{
    if s.len() == 0 {
        Seq::empty()
    } else {
        rows_nodes(s.drop_last()) + cells_nodes(s.last().cells@)
    }
}

/// The stops of cells.
pub open spec fn cells_nodes(s: Seq<Cell>) -> Seq<Node>
    decreases s,
{
    if s.len() == 0 {
        Seq::empty()
    } else {
        cells_nodes(s.drop_last()) + blocks_nodes(s.last().blocks@)
    }
}

/// The stops of paragraphs.
pub open spec fn paras_nodes(s: Seq<Para>) -> Seq<Node>
    decreases s,
{
    if s.len() == 0 {
        Seq::empty()
    } else {
        paras_nodes(s.drop_last()) + children_nodes(s.last().content@)
    }
}

/// The stops of paragraph content.
pub open spec fn children_nodes(s: Seq<ParaChild>) -> Seq<Node>
    decreases s,
{
    if s.len() == 0 {
        Seq::empty()
    } else {
        children_nodes(s.drop_last()) + child_nodes(s.last())
    }
}

/// The stops of one paragraph child.
pub open spec fn child_nodes(child: ParaChild) -> Seq<Node>
    decreases child,
{
    match child {
        ParaChild::Run(run) => run_nodes(run),
        ParaChild::Hyperlink { runs, .. } => runs_nodes(runs@),
        _ => Seq::empty(),
    }
}

/// The stops of runs.
pub open spec fn runs_nodes(s: Seq<Run>) -> Seq<Node>
    decreases s,
{
    if s.len() == 0 {
        Seq::empty()
    } else {
        runs_nodes(s.drop_last()) + run_nodes(s.last())
    }
}

/// The stops of one run.
pub open spec fn run_nodes(run: Run) -> Seq<Node>
    decreases run,
{
    seq![Node::Run(run)] + (match run {
        Run::Field(field) => runs_nodes(field.result@),
        Run::Drawing(drawing) => drawing_nodes(drawing),
        _ => Seq::empty(),
    })
}

/// The stops in the text of a drawing's shapes.
pub open spec fn drawing_nodes(drawing: Drawing) -> Seq<Node>
    decreases drawing,
{
    (match drawing.shape {
        Some(shape) => txbx_nodes(shape.txbx),
        None => Seq::empty(),
    }) + (match drawing.group {
        Some(group) => group_nodes(group.children@),
        None => Seq::empty(),
    })
}

/// The stops of a text box.
pub open spec fn txbx_nodes(txbx: Option<TextBox>) -> Seq<Node>
    decreases txbx,
{
    match txbx {
        Some(t) => blocks_nodes(t.blocks@),
        None => Seq::empty(),
    }
}

/// The stops in the text of a group's shapes.
pub open spec fn group_nodes(s: Seq<GroupChild>) -> Seq<Node>
    decreases s,
{
    if s.len() == 0 {
        Seq::empty()
    } else {
        group_nodes(s.drop_last()) + txbx_nodes(s.last().shape.txbx)
    }
}

/// Collects the tables of contents and the runs of blocks, at any depth.
pub fn visit_blocks<'a>(s: &'a Vec<Block>, out: &mut Vec<Visit<'a>>)
    ensures
        nodes(final(out)@) == nodes(old(out)@) + blocks_nodes(s@),
    decreases s@,
{
    let mut i: usize = 0;
    assert(nodes(out@) =~= nodes(old(out)@) + blocks_nodes(s@.take(0)));
    while i < s.len()
        invariant
            i <= s.len(),
            nodes(out@) == nodes(old(out)@) + blocks_nodes(s@.take(i as int)),
        decreases s.len() - i,
    {
        proof {
            lemma_take_step(s@, i as int);
            assert(decreases_to!(s@ => s@[i as int]));
        }
        visit_block(&s[i], out);
        assert(nodes(out@) =~= nodes(old(out)@) + blocks_nodes(s@.take(i + 1)));
        i = i + 1;
    }
    assert(s@.take(i as int) =~= s@);
}

fn visit_block<'a>(block: &'a Block, out: &mut Vec<Visit<'a>>)
    ensures
        nodes(final(out)@) == nodes(old(out)@) + block_nodes(*block),
    decreases *block,
{
    let ghost before = nodes(out@);
    match block {
        Block::Para(para) => {
            visit_children(&para.content, out);
        }
        Block::Table(tbl) => {
            visit_rows(&tbl.rows, out);
        }
        Block::Toc(toc) => {
            out.push(Visit::Toc(toc));
            assert(nodes(out@) =~= before + seq![Node::Toc(*toc)]);
            visit_paras(&toc.entries, out);
            visit_runs(&toc.fallback, out);
            assert(nodes(out@) =~= before + block_nodes(*block));
        }
        _ => {
            assert(before =~= before + Seq::<Node>::empty());
        }
    }
}

fn visit_rows<'a>(s: &'a Vec<Row>, out: &mut Vec<Visit<'a>>)
    ensures
        nodes(final(out)@) == nodes(old(out)@) + rows_nodes(s@),
    decreases s@,
{
    let mut i: usize = 0;
    assert(nodes(out@) =~= nodes(old(out)@) + rows_nodes(s@.take(0)));
    while i < s.len()
        invariant
            i <= s.len(),
            nodes(out@) == nodes(old(out)@) + rows_nodes(s@.take(i as int)),
        decreases s.len() - i,
    {
        proof {
            lemma_take_step(s@, i as int);
            assert(decreases_to!(s@ => s@[i as int]));
        }
        visit_cells(&s[i].cells, out);
        assert(nodes(out@) =~= nodes(old(out)@) + rows_nodes(s@.take(i + 1)));
        i = i + 1;
    }
    assert(s@.take(i as int) =~= s@);
}

fn visit_cells<'a>(s: &'a Vec<Cell>, out: &mut Vec<Visit<'a>>)
    ensures
        nodes(final(out)@) == nodes(old(out)@) + cells_nodes(s@),
    decreases s@,
{
    let mut i: usize = 0;
    assert(nodes(out@) =~= nodes(old(out)@) + cells_nodes(s@.take(0)));
    while i < s.len()
        invariant
            i <= s.len(),
            nodes(out@) == nodes(old(out)@) + cells_nodes(s@.take(i as int)),
        decreases s.len() - i,
    {
        proof {
            lemma_take_step(s@, i as int);
            assert(decreases_to!(s@ => s@[i as int]));
        }
        visit_blocks(&s[i].blocks, out);
        assert(nodes(out@) =~= nodes(old(out)@) + cells_nodes(s@.take(i + 1)));
        i = i + 1;
    }
    assert(s@.take(i as int) =~= s@);
}

fn visit_paras<'a>(s: &'a Vec<Para>, out: &mut Vec<Visit<'a>>)
    ensures
        nodes(final(out)@) == nodes(old(out)@) + paras_nodes(s@),
    decreases s@,
{
    let mut i: usize = 0;
    assert(nodes(out@) =~= nodes(old(out)@) + paras_nodes(s@.take(0)));
    while i < s.len()
        invariant
            i <= s.len(),
            nodes(out@) == nodes(old(out)@) + paras_nodes(s@.take(i as int)),
        decreases s.len() - i,
    {
        proof {
            lemma_take_step(s@, i as int);
            assert(decreases_to!(s@ => s@[i as int]));
        }
        visit_children(&s[i].content, out);
        assert(nodes(out@) =~= nodes(old(out)@) + paras_nodes(s@.take(i + 1)));
        i = i + 1;
    }
    assert(s@.take(i as int) =~= s@);
}

fn visit_children<'a>(s: &'a Vec<ParaChild>, out: &mut Vec<Visit<'a>>)
    ensures
        nodes(final(out)@) == nodes(old(out)@) + children_nodes(s@),
    decreases s@,
{
    let mut i: usize = 0;
    assert(nodes(out@) =~= nodes(old(out)@) + children_nodes(s@.take(0)));
    while i < s.len()
        invariant
            i <= s.len(),
            nodes(out@) == nodes(old(out)@) + children_nodes(s@.take(i as int)),
        decreases s.len() - i,
    {
        proof {
            lemma_take_step(s@, i as int);
            assert(decreases_to!(s@ => s@[i as int]));
        }
        visit_child(&s[i], out);
        assert(nodes(out@) =~= nodes(old(out)@) + children_nodes(s@.take(i + 1)));
        i = i + 1;
    }
    assert(s@.take(i as int) =~= s@);
}

fn visit_child<'a>(child: &'a ParaChild, out: &mut Vec<Visit<'a>>)
    ensures
        nodes(final(out)@) == nodes(old(out)@) + child_nodes(*child),
    decreases *child,
{
    match child {
        ParaChild::Run(run) => {
            visit_run(run, out);
        }
        ParaChild::Hyperlink { runs, .. } => {
            visit_runs(runs, out);
        }
        _ => {
            assert(nodes(out@) =~= nodes(out@) + Seq::<Node>::empty());
        }
    }
}

fn visit_runs<'a>(s: &'a Vec<Run>, out: &mut Vec<Visit<'a>>)
    ensures
        nodes(final(out)@) == nodes(old(out)@) + runs_nodes(s@),
    decreases s@,
{
    let mut i: usize = 0;
    assert(nodes(out@) =~= nodes(old(out)@) + runs_nodes(s@.take(0)));
    while i < s.len()
        invariant
            i <= s.len(),
            nodes(out@) == nodes(old(out)@) + runs_nodes(s@.take(i as int)),
        decreases s.len() - i,
    {
        proof {
            lemma_take_step(s@, i as int);
            assert(decreases_to!(s@ => s@[i as int]));
        }
        visit_run(&s[i], out);
        assert(nodes(out@) =~= nodes(old(out)@) + runs_nodes(s@.take(i + 1)));
        i = i + 1;
    }
    assert(s@.take(i as int) =~= s@);
}

fn visit_run<'a>(run: &'a Run, out: &mut Vec<Visit<'a>>)
    ensures
        nodes(final(out)@) == nodes(old(out)@) + run_nodes(*run),
    decreases *run,
{
    let ghost before = nodes(out@);
    out.push(Visit::Run(run));
    assert(nodes(out@) =~= before + seq![Node::Run(*run)]);
    match run {
        Run::Field(field) => {
            visit_runs(&field.result, out);
        }
        Run::Drawing(drawing) => {
            visit_drawing(drawing, out);
        }
        _ => {}
    }
    assert(nodes(out@) =~= before + run_nodes(*run));
}

fn visit_drawing<'a>(drawing: &'a Drawing, out: &mut Vec<Visit<'a>>)
    ensures
        nodes(final(out)@) == nodes(old(out)@) + drawing_nodes(*drawing),
    decreases *drawing,
{
    let ghost before = nodes(out@);
    if let Some(shape) = &drawing.shape {
        visit_txbx(&shape.txbx, out);
    }
    if let Some(group) = &drawing.group {
        visit_group(&group.children, out);
    }
    assert(nodes(out@) =~= before + drawing_nodes(*drawing));
}

fn visit_txbx<'a>(txbx: &'a Option<TextBox>, out: &mut Vec<Visit<'a>>)
    ensures
        nodes(final(out)@) == nodes(old(out)@) + txbx_nodes(*txbx),
    decreases *txbx,
{
    match txbx {
        Some(t) => {
            visit_blocks(&t.blocks, out);
        }
        None => {
            assert(nodes(out@) =~= nodes(out@) + Seq::<Node>::empty());
        }
    }
}

fn visit_group<'a>(s: &'a Vec<GroupChild>, out: &mut Vec<Visit<'a>>)
    ensures
        nodes(final(out)@) == nodes(old(out)@) + group_nodes(s@),
    decreases s@,
{
    let mut i: usize = 0;
    assert(nodes(out@) =~= nodes(old(out)@) + group_nodes(s@.take(0)));
    while i < s.len()
        invariant
            i <= s.len(),
            nodes(out@) == nodes(old(out)@) + group_nodes(s@.take(i as int)),
        decreases s.len() - i,
    {
        proof {
            lemma_take_step(s@, i as int);
            assert(decreases_to!(s@ => s@[i as int]));
        }
        visit_txbx(&s[i].shape.txbx, out);
        assert(nodes(out@) =~= nodes(old(out)@) + group_nodes(s@.take(i + 1)));
        i = i + 1;
    }
    assert(s@.take(i as int) =~= s@);
}

} // verus!
