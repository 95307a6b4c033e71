//! Which paragraphs and runs a walk through a document meets.

use vstd::prelude::*;

use crate::dom::{Block, Cell, Drawing, ParaChild, Row, Run, Toc};
use crate::tally::{is_mode, precedes, total, true_wins, wins};
use crate::walk::{
    Node, block_nodes, block_paras, blocks_nodes, cells_nodes, cells_paras, child_nodes,
    children_nodes, drawing_nodes, group_nodes, paras, paras_nodes, rows_nodes, rows_paras,
    run_nodes, runs_nodes,
};

verus! {

// -- Paragraphs --------------------------------------------------------------

/// The paragraphs of blocks are met in order.
pub proof fn paragraphs_are_met_in_order(a: Seq<Block>, b: Seq<Block>)
    ensures
        paras(a + b) == paras(a) + paras(b),
    decreases b.len(),
{
    if b.len() == 0 {
        assert(a + b =~= a);
        assert(paras(a) + paras(b) =~= paras(a));
    } else {
        paragraphs_are_met_in_order(a, b.drop_last());
        assert((a + b).drop_last() =~= a + b.drop_last());
        assert((a + b).last() == b.last());
        assert(paras(a) + paras(b.drop_last()) + block_paras(b.last()) =~= paras(a) + (paras(
            b.drop_last(),
        ) + block_paras(b.last())));
    }
}

/// A paragraph is met as itself, those of a table cell by cell and row by row, and
/// no other block holds any.
pub proof fn blocks_hold_their_paragraphs(block: Block, row: Row, cell: Cell)
    ensures
        block is Para ==> paras(seq![block]) == seq![block->Para_0],
        block is Table ==> paras(seq![block]) == rows_paras(block->Table_0.rows@),
        !(block is Para) && !(block is Table) ==> paras(seq![block]).len() == 0,
        rows_paras(seq![row]) == cells_paras(row.cells@),
        cells_paras(seq![cell]) == paras(cell.blocks@),
{
    assert(seq![block].drop_last() =~= Seq::empty());
    assert(paras(Seq::<Block>::empty()) =~= Seq::empty());
    assert(paras(seq![block]) =~= block_paras(block));
    assert(seq![row].drop_last() =~= Seq::empty());
    assert(rows_paras(Seq::<Row>::empty()) =~= Seq::empty());
    assert(rows_paras(seq![row]) =~= cells_paras(row.cells@));
    assert(seq![cell].drop_last() =~= Seq::empty());
    assert(cells_paras(Seq::<Cell>::empty()) =~= Seq::empty());
    assert(cells_paras(seq![cell]) =~= paras(cell.blocks@));
}

/// The paragraphs of rows and of cells are met in order.
pub proof fn tables_are_met_in_order(a: Seq<Row>, b: Row, c: Seq<Cell>, d: Cell)
    ensures
        rows_paras(a.push(b)) == rows_paras(a) + cells_paras(b.cells@),
        cells_paras(c.push(d)) == cells_paras(c) + paras(d.blocks@),
{
    assert(a.push(b).drop_last() =~= a);
    assert(c.push(d).drop_last() =~= c);
}

// -- Runs --------------------------------------------------------------------

/// The runs of blocks are met in order.
pub proof fn runs_are_met_in_order(a: Seq<Block>, b: Seq<Block>)
    ensures
        blocks_nodes(a + b) == blocks_nodes(a) + blocks_nodes(b),
    decreases b.len(),
{
    if b.len() == 0 {
        assert(a + b =~= a);
        assert(blocks_nodes(a) + blocks_nodes(b) =~= blocks_nodes(a));
    } else {
        runs_are_met_in_order(a, b.drop_last());
        assert((a + b).drop_last() =~= a + b.drop_last());
        assert((a + b).last() == b.last());
        assert(blocks_nodes(a) + blocks_nodes(b.drop_last()) + block_nodes(b.last())
            =~= blocks_nodes(a) + (blocks_nodes(b.drop_last()) + block_nodes(b.last())));
    }
}

/// Every run is met, and what it holds directly behind it: the result of a field,
/// and the text of a drawing. Links are met through their runs.
pub proof fn runs_are_met_with_what_they_hold(run: Run, child: ParaChild)
    ensures
        run_nodes(run).len() >= 1,
        run_nodes(run)[0] == Node::Run(run),
        run is Field ==> run_nodes(run).skip(1) =~= runs_nodes(run->Field_0.result@),
        run is Drawing ==> run_nodes(run).skip(1) =~= drawing_nodes(run->Drawing_0),
        !(run is Field) && !(run is Drawing) ==> run_nodes(run).len() == 1,
        child is Run ==> child_nodes(child) == run_nodes(child->Run_0),
        child is Hyperlink ==> child_nodes(child) == runs_nodes(child->runs@),
        !(child is Run) && !(child is Hyperlink) ==> child_nodes(child).len() == 0,
{
}

/// The text of a drawing is that of its text box, and behind it that of the boxes
/// of its group.
pub proof fn drawings_are_met_with_their_text(d: Drawing)
    ensures
        d.shape is Some && d.shape.unwrap().txbx is Some && d.group is None ==> drawing_nodes(d)
            =~= blocks_nodes(d.shape.unwrap().txbx.unwrap().blocks@),
        d.shape is None && d.group is Some ==> drawing_nodes(d) =~= group_nodes(
            d.group.unwrap().children@,
        ),
        d.shape is None && d.group is None ==> drawing_nodes(d).len() == 0,
{
}

/// Paragraphs and tables are met through what they hold; a table of contents as
/// itself, then through its entries and its placeholder.
pub proof fn blocks_are_met_with_what_they_hold(block: Block, row: Row, cell: Cell)
    ensures
        block is Para ==> block_nodes(block) == children_nodes(block->Para_0.content@),
        block is Table ==> block_nodes(block) == rows_nodes(block->Table_0.rows@),
        block is Toc ==> block_nodes(block) == seq![Node::Toc(block->Toc_0)] + paras_nodes(
            block->Toc_0.entries@,
        ) + runs_nodes(block->Toc_0.fallback@),
        block is FlowSpace || block is SectionBreak || block is Tag || block is WeakPageBreak
            ==> block_nodes(block).len() == 0,
        rows_nodes(seq![row]) == cells_nodes(row.cells@),
        cells_nodes(seq![cell]) == blocks_nodes(cell.blocks@),
{
    assert(seq![row].drop_last() =~= Seq::empty());
    assert(rows_nodes(Seq::<Row>::empty()) =~= Seq::empty());
    assert(rows_nodes(seq![row]) =~= cells_nodes(row.cells@));
    assert(seq![cell].drop_last() =~= Seq::empty());
    assert(cells_nodes(Seq::<Cell>::empty()) =~= Seq::empty());
    assert(cells_nodes(seq![cell]) =~= blocks_nodes(cell.blocks@));
}

// -- Counting ----------------------------------------------------------------

/// With a weight of one each, a total counts how often a key occurs.
pub proof fn totals_count_occurrences(keys: Seq<Seq<u32>>, key: Seq<u32>, n: int)
    requires
        0 <= n <= keys.len(),
    ensures
        total(keys, Seq::new(keys.len(), |i: int| 1u64), key, n) == keys.take(n).filter(
            |k: Seq<u32>| k == key,
        ).len(),
    decreases n,
{
    reveal(Seq::filter);
    if n > 0 {
        totals_count_occurrences(keys, key, n - 1);
        assert(keys.take(n).drop_last() =~= keys.take(n - 1));
        assert(keys.take(n).last() == keys[n - 1]);
    }
}

/// A key that alone carries weight wins, and one without weight does not win over
/// one with some.
pub proof fn weight_decides(keys: Seq<Seq<u32>>, weights: Seq<u64>, a: Seq<u32>, b: Seq<u32>)
    requires
        wins(keys, weights, a),
        keys.contains(b),
        a != b,
    ensures
        total(keys, weights, b, keys.len() as int) < total(keys, weights, a, keys.len() as int),
        !wins(keys, weights, b),
{
    let i = keys.index_of(b);
    assert(keys[i] == b);
    if wins(keys, weights, b) {
        let j = keys.index_of(a);
        assert(keys[j] == a);
    }
}

/// No other key occurs more often than the most frequent one, and among equally
/// frequent ones it is the first in order.
pub proof fn modes_are_most_frequent(keys: Seq<Seq<u32>>, key: Seq<u32>, other: Seq<u32>)
    requires
        is_mode(keys, key),
        keys.contains(other),
        other != key,
    ensures
        keys.filter(|k: Seq<u32>| k == other).len() <= keys.filter(
            |k: Seq<u32>| k == key,
        ).len(),
        keys.filter(|k: Seq<u32>| k == other).len() == keys.filter(
            |k: Seq<u32>| k == key,
        ).len() ==> precedes(key, other),
{
    totals_count_occurrences(keys, key, keys.len() as int);
    totals_count_occurrences(keys, other, keys.len() as int);
    assert(keys.take(keys.len() as int) =~= keys);
    let i = keys.index_of(other);
    assert(keys[i] == other);
}

/// Keys are ordered by the first place at which they differ.
pub proof fn keys_are_ordered_by_their_first_difference(a: Seq<u32>, b: Seq<u32>, k: int)
    requires
        0 <= k < a.len(),
        k < b.len(),
        forall|j: int| 0 <= j < k ==> a[j] == b[j],
        a[k] != b[k],
    ensures
        precedes(a, b) <==> a[k] < b[k],
    decreases a.len(),
{
    if k > 0 {
        let x = a.subrange(1, a.len() as int);
        let y = b.subrange(1, b.len() as int);
        assert forall|j: int| 0 <= j < k - 1 implies x[j] == y[j] by {
            assert(a[j + 1] == b[j + 1]);
        }
        keys_are_ordered_by_their_first_difference(x, y, k - 1);
        assert(a[0] == b[0]);
    }
}

/// Yes wins with at least half of the votes.
pub proof fn half_of_the_votes_suffice(values: Seq<bool>)
    ensures
        (forall|i: int| 0 <= i < values.len() ==> #[trigger] values[i]) ==> true_wins(values),
        values.len() > 0 && (forall|i: int| 0 <= i < values.len() ==> !#[trigger] values[i])
            ==> !true_wins(values),
        true_wins(values) <==> values.filter(|b: bool| b).len() >= values.filter(
            |b: bool| !b,
        ).len(),
{
    lemma_votes(values);
}

proof fn lemma_votes(values: Seq<bool>)
    ensures
        values.filter(|b: bool| b).len() + values.filter(|b: bool| !b).len() == values.len(),
        (forall|i: int| 0 <= i < values.len() ==> #[trigger] values[i]) ==> values.filter(
            |b: bool| b,
        ).len() == values.len(),
        (forall|i: int| 0 <= i < values.len() ==> !#[trigger] values[i]) ==> values.filter(
            |b: bool| b,
        ).len() == 0,
    decreases values.len(),
{
    reveal(Seq::filter);
    if values.len() > 0 {
        let rest = values.drop_last();
        lemma_votes(rest);
        assert forall|i: int| 0 <= i < rest.len() implies rest[i] == values[i] by {}
        assert(values.last() == values[values.len() - 1]);
    }
}

} // verus!
