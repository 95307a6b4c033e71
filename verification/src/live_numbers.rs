//! What live heading numbers show.
//!
//! Multilevel numbering has one counter for each level. A heading steps the
//! counter of its level and starts deeper ones over; its number is the text of
//! its level with the counters filled in.

use vstd::prelude::*;

use crate::dom::{Block, Cell, ListLevel, Para, Row};
use crate::heading_numbering::{
    MAX_LEVELS, Parts, block_retargeted, block_stripped, blocks_retargeted, blocks_stripped,
    can_go_live, cells_retargeted, cells_stripped, counters_after, emptied_among, frozen,
    headings_among, level_number, number_agrees, para_level, para_retargeted, para_stripped, parts_live,
    rows_retargeted, rows_stripped, stepped,
};
use crate::walk::{block_paras, cells_paras, paras, rows_paras};

verus! {

/// The level at which a heading is numbered by its style, counted from zero. A
/// paragraph with a number of its own is not.
pub open spec fn live_level(para: Para) -> Option<int> {
    match para_level(para) {
        Some(level) => if 1 <= level <= MAX_LEVELS && para.props.num is None {
            Some(level - 1)
        } else {
            None
        },
        None => None,
    }
}

/// The level counters after the first `n` paragraphs.
pub open spec fn live_counters(ps: Seq<Para>, n: int) -> Seq<u64>
    decreases n,
{
    if n <= 0 {
        Seq::new(MAX_LEVELS as nat, |i: int| 0u64)
    } else {
        let before = live_counters(ps, n - 1);
        match live_level(ps[n - 1]) {
            Some(index) => stepped(before, index),
            None => before,
        }
    }
}

/// The number that multilevel numbering shows in front of the `n`-th paragraph.
pub open spec fn live_number(levels: Seq<ListLevel>, ps: Seq<Para>, n: int) -> Option<Seq<char>> {
    match live_level(ps[n]) {
        Some(index) => level_number(levels, live_counters(ps, n + 1), index),
        None => None,
    }
}

/// The number that a heading shows as text, where numbering addresses its level.
pub open spec fn frozen_number(para: Para) -> Option<Seq<char>> {
    match para_level(para) {
        Some(level) => if 1 <= level <= MAX_LEVELS {
            frozen(para, level)
        } else {
            None
        },
        None => None,
    }
}

// -- The paragraphs of rewritten blocks --------------------------------------

spec fn all_stripped(old: Seq<Para>, new: Seq<Para>) -> bool {
    old.len() == new.len() && forall|i: int|
        0 <= i < old.len() ==> para_stripped(#[trigger] old[i], new[i])
}

spec fn all_retargeted(old: Seq<Para>, new: Seq<Para>, emptied: Seq<Seq<char>>) -> bool {
    old.len() == new.len() && forall|i: int|
        0 <= i < old.len() ==> para_retargeted(#[trigger] old[i], new[i], emptied)
}

proof fn lemma_stripped_add(a: Seq<Para>, b: Seq<Para>, c: Seq<Para>, d: Seq<Para>)
    requires
        all_stripped(a, b),
        all_stripped(c, d),
    ensures
        all_stripped(a + c, b + d),
{
    assert forall|i: int| 0 <= i < (a + c).len() implies para_stripped(
        #[trigger] (a + c)[i],
        (b + d)[i],
    ) by {
        if i < a.len() {
            assert(para_stripped(a[i], b[i]));
        } else {
            assert(para_stripped(c[i - a.len()], d[i - a.len()]));
        }
    }
}

proof fn lemma_retargeted_add(
    a: Seq<Para>,
    b: Seq<Para>,
    c: Seq<Para>,
    d: Seq<Para>,
    emptied: Seq<Seq<char>>,
)
    requires
        all_retargeted(a, b, emptied),
        all_retargeted(c, d, emptied),
    ensures
        all_retargeted(a + c, b + d, emptied),
{
    assert forall|i: int| 0 <= i < (a + c).len() implies para_retargeted(
        #[trigger] (a + c)[i],
        (b + d)[i],
        emptied,
    ) by {
        if i < a.len() {
            assert(para_retargeted(a[i], b[i], emptied));
        } else {
            assert(para_retargeted(c[i - a.len()], d[i - a.len()], emptied));
        }
    }
}

proof fn lemma_stripped_blocks(old: Seq<Block>, new: Seq<Block>)
    requires
        blocks_stripped(old, new),
    ensures
        all_stripped(paras(old), paras(new)),
    decreases old,
{
    if old.len() > 0 {
        let k = old.len() - 1;
        assert(block_stripped(old[k], new[k]));
        assert forall|i: int| 0 <= i < k implies block_stripped(old[i], new[i]) by {
            assert(block_stripped(old[i], new[i]));
        }
        assert(blocks_stripped(old.drop_last(), new.drop_last())) by {
            assert forall|i: int| 0 <= i < k implies block_stripped(
                #[trigger] old.drop_last()[i],
                new.drop_last()[i],
            ) by {
                assert(old.drop_last()[i] == old[i]);
                assert(new.drop_last()[i] == new[i]);
            }
        }
        lemma_stripped_blocks(old.drop_last(), new.drop_last());
        assert(decreases_to!(old => old[k]));
        lemma_stripped_block(old[k], new[k]);
        lemma_stripped_add(
            paras(old.drop_last()),
            paras(new.drop_last()),
            block_paras(old[k]),
            block_paras(new[k]),
        );
    }
}

proof fn lemma_stripped_block(old: Block, new: Block)
    requires
        block_stripped(old, new),
    ensures
        all_stripped(block_paras(old), block_paras(new)),
    decreases old,
{
    match old {
        Block::Table(t) => lemma_stripped_rows(t.rows@, new->Table_0.rows@),
        _ => {},
    }
}

proof fn lemma_stripped_rows(old: Seq<Row>, new: Seq<Row>)
    requires
        rows_stripped(old, new),
    ensures
        all_stripped(rows_paras(old), rows_paras(new)),
    decreases old,
{
    if old.len() > 0 {
        let k = old.len() - 1;
        assert(cells_stripped(old[k].cells@, new[k].cells@));
        assert(rows_stripped(old.drop_last(), new.drop_last())) by {
            assert forall|i: int| 0 <= i < k implies {
                &&& (#[trigger] new.drop_last()[i]).header == old.drop_last()[i].header
                &&& new.drop_last()[i].cant_split == old.drop_last()[i].cant_split
                &&& new.drop_last()[i].height == old.drop_last()[i].height
                &&& cells_stripped(old.drop_last()[i].cells@, new.drop_last()[i].cells@)
            } by {
                assert(old.drop_last()[i] == old[i]);
                assert(new.drop_last()[i] == new[i]);
            }
        }
        lemma_stripped_rows(old.drop_last(), new.drop_last());
        assert(decreases_to!(old => old[k]));
        lemma_stripped_cells(old[k].cells@, new[k].cells@);
        lemma_stripped_add(
            rows_paras(old.drop_last()),
            rows_paras(new.drop_last()),
            cells_paras(old[k].cells@),
            cells_paras(new[k].cells@),
        );
    }
}

proof fn lemma_stripped_cells(old: Seq<Cell>, new: Seq<Cell>)
    requires
        cells_stripped(old, new),
    ensures
        all_stripped(cells_paras(old), cells_paras(new)),
    decreases old,
{
    if old.len() > 0 {
        let k = old.len() - 1;
        assert(blocks_stripped(old[k].blocks@, new[k].blocks@));
        assert(cells_stripped(old.drop_last(), new.drop_last())) by {
            assert forall|i: int| 0 <= i < k implies {
                &&& (#[trigger] new.drop_last()[i]) == (Cell {
                    blocks: new.drop_last()[i].blocks,
                    ..old.drop_last()[i]
                })
                &&& blocks_stripped(old.drop_last()[i].blocks@, new.drop_last()[i].blocks@)
            } by {
                assert(old.drop_last()[i] == old[i]);
                assert(new.drop_last()[i] == new[i]);
            }
        }
        lemma_stripped_cells(old.drop_last(), new.drop_last());
        assert(decreases_to!(old => old[k]));
        lemma_stripped_blocks(old[k].blocks@, new[k].blocks@);
        lemma_stripped_add(
            cells_paras(old.drop_last()),
            cells_paras(new.drop_last()),
            paras(old[k].blocks@),
            paras(new[k].blocks@),
        );
    }
}

proof fn lemma_retargeted_blocks(old: Seq<Block>, new: Seq<Block>, emptied: Seq<Seq<char>>)
    requires
        blocks_retargeted(old, new, emptied),
    ensures
        all_retargeted(paras(old), paras(new), emptied),
    decreases old,
{
    if old.len() > 0 {
        let k = old.len() - 1;
        assert(block_retargeted(old[k], new[k], emptied));
        assert(blocks_retargeted(old.drop_last(), new.drop_last(), emptied)) by {
            assert forall|i: int| 0 <= i < k implies block_retargeted(
                #[trigger] old.drop_last()[i],
                new.drop_last()[i],
                emptied,
            ) by {
                assert(old.drop_last()[i] == old[i]);
                assert(new.drop_last()[i] == new[i]);
            }
        }
        lemma_retargeted_blocks(old.drop_last(), new.drop_last(), emptied);
        assert(decreases_to!(old => old[k]));
        lemma_retargeted_block(old[k], new[k], emptied);
        lemma_retargeted_add(
            paras(old.drop_last()),
            paras(new.drop_last()),
            block_paras(old[k]),
            block_paras(new[k]),
            emptied,
        );
    }
}

proof fn lemma_retargeted_block(old: Block, new: Block, emptied: Seq<Seq<char>>)
    requires
        block_retargeted(old, new, emptied),
    ensures
        all_retargeted(block_paras(old), block_paras(new), emptied),
    decreases old,
{
    match old {
        Block::Table(t) => lemma_retargeted_rows(t.rows@, new->Table_0.rows@, emptied),
        _ => {},
    }
}

proof fn lemma_retargeted_rows(old: Seq<Row>, new: Seq<Row>, emptied: Seq<Seq<char>>)
    requires
        rows_retargeted(old, new, emptied),
    ensures
        all_retargeted(rows_paras(old), rows_paras(new), emptied),
    decreases old,
{
    if old.len() > 0 {
        let k = old.len() - 1;
        assert(cells_retargeted(old[k].cells@, new[k].cells@, emptied));
        assert(rows_retargeted(old.drop_last(), new.drop_last(), emptied)) by {
            assert forall|i: int| 0 <= i < k implies {
                &&& (#[trigger] new.drop_last()[i]).header == old.drop_last()[i].header
                &&& new.drop_last()[i].cant_split == old.drop_last()[i].cant_split
                &&& new.drop_last()[i].height == old.drop_last()[i].height
                &&& cells_retargeted(
                    old.drop_last()[i].cells@,
                    new.drop_last()[i].cells@,
                    emptied,
                )
            } by {
                assert(old.drop_last()[i] == old[i]);
                assert(new.drop_last()[i] == new[i]);
            }
        }
        lemma_retargeted_rows(old.drop_last(), new.drop_last(), emptied);
        assert(decreases_to!(old => old[k]));
        lemma_retargeted_cells(old[k].cells@, new[k].cells@, emptied);
        lemma_retargeted_add(
            rows_paras(old.drop_last()),
            rows_paras(new.drop_last()),
            cells_paras(old[k].cells@),
            cells_paras(new[k].cells@),
            emptied,
        );
    }
}

proof fn lemma_retargeted_cells(old: Seq<Cell>, new: Seq<Cell>, emptied: Seq<Seq<char>>)
    requires
        cells_retargeted(old, new, emptied),
    ensures
        all_retargeted(cells_paras(old), cells_paras(new), emptied),
    decreases old,
{
    if old.len() > 0 {
        let k = old.len() - 1;
        assert(blocks_retargeted(old[k].blocks@, new[k].blocks@, emptied));
        assert(cells_retargeted(old.drop_last(), new.drop_last(), emptied)) by {
            assert forall|i: int| 0 <= i < k implies {
                &&& (#[trigger] new.drop_last()[i]) == (Cell {
                    blocks: new.drop_last()[i].blocks,
                    ..old.drop_last()[i]
                })
                &&& blocks_retargeted(
                    old.drop_last()[i].blocks@,
                    new.drop_last()[i].blocks@,
                    emptied,
                )
            } by {
                assert(old.drop_last()[i] == old[i]);
                assert(new.drop_last()[i] == new[i]);
            }
        }
        lemma_retargeted_cells(old.drop_last(), new.drop_last(), emptied);
        assert(decreases_to!(old => old[k]));
        lemma_retargeted_blocks(old[k].blocks@, new[k].blocks@, emptied);
        lemma_retargeted_add(
            cells_paras(old.drop_last()),
            cells_paras(new.drop_last()),
            paras(old[k].blocks@),
            paras(new[k].blocks@),
            emptied,
        );
    }
}

// -- The numbers -------------------------------------------------------------

/// Whether rewritten paragraphs are numbered by their styles exactly where the
/// number was text before.
spec fn numbered_alike(old: Seq<Para>, new: Seq<Para>) -> bool {
    old.len() == new.len() && forall|i: int|
        0 <= i < old.len() ==> live_level(#[trigger] new[i]) == (if frozen_number(old[i]) is Some {
            Some(para_level(old[i])->0 - 1)
        } else {
            None::<int>
        })
}

proof fn lemma_counters_prefix(
    a: Seq<(u8, Option<Seq<char>>)>,
    b: Seq<(u8, Option<Seq<char>>)>,
    n: int,
)
    requires
        0 <= n <= a.len(),
        n <= b.len(),
        forall|i: int| 0 <= i < n ==> #[trigger] a[i] == b[i],
    ensures
        counters_after(a, n) == counters_after(b, n),
    decreases n,
{
    if n > 0 {
        lemma_counters_prefix(a, b, n - 1);
        assert(a[n - 1] == b[n - 1]);
    }
}

proof fn lemma_headings_prefix(ps: Seq<Para>, n: int)
    requires
        0 <= n <= ps.len(),
    ensures
        headings_among(ps.take(n)).len() <= headings_among(ps).len(),
        forall|i: int|
            0 <= i < headings_among(ps.take(n)).len() ==> #[trigger] headings_among(ps.take(n))[i]
                == headings_among(ps)[i],
    decreases ps.len(),
{
    if n == ps.len() {
        assert(ps.take(n) =~= ps);
    } else {
        assert(ps.drop_last().take(n) =~= ps.take(n));
        lemma_headings_prefix(ps.drop_last(), n);
    }
}

proof fn lemma_counters(old: Seq<Para>, new: Seq<Para>, n: int)
    requires
        numbered_alike(old, new),
        0 <= n <= old.len(),
    ensures
        live_counters(new, n) == counters_after(
            headings_among(old.take(n)),
            headings_among(old.take(n)).len() as int,
        ),
    decreases n,
{
    if n > 0 {
        lemma_counters(old, new, n - 1);
        let before = headings_among(old.take(n - 1));
        let after = headings_among(old.take(n));
        assert(old.take(n).drop_last() =~= old.take(n - 1));
        assert(old.take(n).last() == old[n - 1]);
        assert(live_level(new[n - 1]) == (if frozen_number(old[n - 1]) is Some {
            Some(para_level(old[n - 1])->0 - 1)
        } else {
            None::<int>
        }));
        if let Some(level) = para_level(old[n - 1]) {
            assert(after == before.push((level, frozen(old[n - 1], level))));
            lemma_counters_prefix(after, before, before.len() as int);
        }
    } else {
        assert(old.take(0) =~= Seq::<Para>::empty());
    }
}

/// Once the heading numbers of a document are live, multilevel numbering shows in
/// front of every paragraph the number that stood there as text, and none where
/// none stood. No heading has a number of its own before.
pub proof fn live_numbers_are_the_frozen_ones(old: Parts, new: Parts, levels: &Vec<ListLevel>)
    requires
        can_go_live(Some(levels), old),
        parts_live(old, new),
        forall|i: int|
            0 <= i < paras(old.body@).len() && para_level(paras(old.body@)[i]) is Some
                ==> (#[trigger] paras(old.body@)[i]).props.num is None,
    ensures
        paras(new.body@).len() == paras(old.body@).len(),
        forall|i: int|
            0 <= i < paras(old.body@).len() ==> live_number(levels@, paras(new.body@), i)
                == frozen_number(#[trigger] paras(old.body@)[i]),
{
    let ps = paras(old.body@);
    let qs = paras(new.body@);
    let emptied = emptied_among(ps);
    let mid = choose|mid: Seq<Block>|
        #![trigger blocks_stripped(old.body@, mid)]
        blocks_stripped(old.body@, mid) && blocks_retargeted(mid, new.body@, emptied);
    lemma_stripped_blocks(old.body@, mid);
    lemma_retargeted_blocks(mid, new.body@, emptied);
    assert(numbered_alike(ps, qs)) by {
        assert forall|i: int| 0 <= i < ps.len() implies live_level(#[trigger] qs[i]) == (
        if frozen_number(ps[i]) is Some {
            Some(para_level(ps[i])->0 - 1)
        } else {
            None::<int>
        }) by {
            assert(para_stripped(ps[i], paras(mid)[i]));
            assert(para_retargeted(paras(mid)[i], qs[i], emptied));
        }
    }
    let headings = headings_among(ps);
    assert forall|i: int| 0 <= i < ps.len() implies live_number(levels@, qs, i) == frozen_number(
        #[trigger] ps[i],
    ) by {
        assert(live_level(qs[i]) == (if frozen_number(ps[i]) is Some {
            Some(para_level(ps[i])->0 - 1)
        } else {
            None::<int>
        }));
        if frozen_number(ps[i]) is Some {
            let level = para_level(ps[i])->0;
            let h = headings_among(ps.take(i)).len() as int;
            let after = headings_among(ps.take(i + 1));
            assert(ps.take(i + 1).drop_last() =~= ps.take(i));
            assert(ps.take(i + 1).last() == ps[i]);
            assert(after == headings_among(ps.take(i)).push((level, frozen(ps[i], level))));
            lemma_headings_prefix(ps, i + 1);
            assert(after[h] == headings[h]);
            assert(number_agrees(levels@, headings, h));
            lemma_counters(ps, qs, i + 1);
            lemma_counters_prefix(after, headings, h + 1);
        }
    }
}

} // verus!
