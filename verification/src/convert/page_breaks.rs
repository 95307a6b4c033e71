//! Page breaks in a flow, and those of them that leave no block.

use vstd::prelude::*;

use crate::convert::assemble::{Assembler, passes_space, space_applied, space_index};
use crate::convert::blocks::pagebreak_block;
use crate::convert::breaks::{
    are_pieces, breaks_moved, is_break_block, is_page_break, without_trailing_breaks,
};
use crate::convert::overlay::{folded, is_finished, last_blocks, with_fill_tab};
use crate::dom::{Block, ParaChild, Run};
use crate::props::{FlowLook, flow_look, flow_looks, plain_para};

verus! {

/// Whether a block is the one of a page break.
pub open spec fn is_pagebreak_block(block: Block, weak: bool) -> bool {
    if weak {
        block is WeakPageBreak
    } else {
        flow_look(block) == (FlowLook::Para {
            props: plain_para(),
            content: seq![ParaChild::Run(Run::PageBreak)],
        })
    }
}

/// Whether `after` is `before` with a page break taken up. In front of all content
/// it says nothing; else it ends the paragraph being gathered and becomes a block,
/// which waiting space applies to unless the paragraph took it.
pub open spec fn page_break_taken(before: Assembler, after: Assembler, weak: bool) -> bool {
    if before.nothing_shown() {
        after == before
    } else {
        exists|mid: Assembler, block: Block|
            {
                &&& #[trigger] Assembler::flushed(before, mid)
                &&& #[trigger] is_pagebreak_block(block, weak)
                &&& (after.blocks@, after.space) == space_applied(
                    mid.blocks@.push(block),
                    before.blocks@.len() as int,
                    mid.space,
                )
                &&& after == (Assembler {
                    blocks: after.blocks,
                    space: after.space,
                    after_par: false,
                    ..mid
                })
            }
    }
}

impl Assembler {
    /// Takes up a page break that carries no label. A weak break and a page-setup
    /// boundary break only where content precedes them, unless they ask for an odd
    /// or even page.
    pub fn page_break(&mut self, weak: bool, boundary: bool, parity: bool)
        requires
            old(self).wf(),
        ensures
            final(self).wf(),
            page_break_taken(*old(self), *final(self), (weak || boundary) && !parity),
    {
        if self.shows_nothing() {
            return;
        }
        let from: usize = self.start_block();
        let ghost mid = *self;
        let block: Block = pagebreak_block(weak, boundary, parity);
        assert(is_pagebreak_block(block, (weak || boundary) && !parity));
        self.blocks.push(block);
        self.end_block(from);
        assert(Assembler::flushed(*old(self), mid));
    }
}

proof fn lemma_space_at(blocks: Seq<Block>, i: int)
    requires
        0 <= i <= blocks.len(),
    ensures
        i <= space_index(blocks, i) <= blocks.len(),
        space_index(blocks, i) < blocks.len() ==> !passes_space(blocks[space_index(blocks, i)]),
    decreases blocks.len() - i,
{
    if i < blocks.len() && passes_space(blocks[i]) {
        lemma_space_at(blocks, i + 1);
    }
}

proof fn lemma_break_is_dropped(blocks: Seq<Block>, block: Block)
    requires
        is_break_block(block),
    ensures
        without_trailing_breaks(blocks.push(block)) == without_trailing_breaks(blocks),
{
    assert(blocks.push(block).drop_last() =~= blocks);
}

/// One hard break at the end changes nothing of what a flow becomes.
proof fn lemma_trailing_break(a: Assembler, b: Assembler, width: i32, out: Seq<Block>)
    requires
        a.wf(),
        page_break_taken(a, b, false),
        is_finished(b, width, out),
    ensures
        b.wf(),
        is_finished(a, width, out),
{
    if !a.nothing_shown() {
        let (mid, block) = choose|mid: Assembler, block: Block|
            {
                &&& #[trigger] Assembler::flushed(a, mid)
                &&& #[trigger] is_pagebreak_block(block, false)
                &&& (b.blocks@, b.space) == space_applied(
                    mid.blocks@.push(block),
                    a.blocks@.len() as int,
                    mid.space,
                )
                &&& b == (Assembler {
                    blocks: b.blocks,
                    space: b.space,
                    after_par: false,
                    ..mid
                })
            };
        let (last, moved) = choose|last: Assembler, moved: Seq<Block>|
            {
                &&& #[trigger] Assembler::flushed(b, last)
                &&& #[trigger] are_pieces(
                    moved,
                    breaks_moved(without_trailing_breaks(last_blocks(b, last))),
                )
                &&& out.len() == folded(flow_looks(moved), 1, width).len()
                &&& forall|i: int|
                    0 <= i < out.len() ==> flow_look(#[trigger] out[i]) == with_fill_tab(
                        folded(flow_looks(moved), 1, width)[i],
                        width,
                    )
            };
        let n = a.blocks@.len() as int;
        let with_break = mid.blocks@.push(block);
        assert(last.blocks == b.blocks);
        assert(last_blocks(b, last) == b.blocks@) by {
            lemma_space_at(b.blocks@, b.blocks@.len() as int);
        }
        assert(block is Para);
        assert(block->Para_0.content@[0] == ParaChild::Run(Run::PageBreak));
        assert(is_break_block(block)) by {
            assert forall|i: int| 0 <= i < block->Para_0.content@.len() implies is_page_break(
                #[trigger] block->Para_0.content@[i],
            ) by {}
        }
        assert(without_trailing_breaks(b.blocks@) == without_trailing_breaks(
            last_blocks(a, mid),
        )) by {
            lemma_space_at(with_break, n);
            lemma_space_at(mid.blocks@, n);
            let at = space_index(with_break, n);
            if a.space == 0 {
                lemma_break_is_dropped(mid.blocks@, block);
            } else if mid.blocks@.len() == n {
                assert(at == n);
                let grown = b.blocks@[n];
                assert(b.blocks@ =~= mid.blocks@.push(grown));
                assert(grown->Para_0.content == block->Para_0.content);
                assert(is_break_block(grown)) by {
                    assert forall|i: int|
                        0 <= i < grown->Para_0.content@.len() implies is_page_break(
                        #[trigger] grown->Para_0.content@[i],
                    ) by {}
                }
                lemma_break_is_dropped(mid.blocks@, grown);
                assert(last_blocks(a, mid) =~= mid.blocks@);
            } else {
                assert(mid.blocks@.len() == n + 1);
                assert(mid.blocks@[n] == mid.blocks@.last());
                assert(with_break[n] == mid.blocks@[n]);
                assert(at == n);
                assert(space_index(mid.blocks@, n) == n);
                assert(b.blocks@ =~= last_blocks(a, mid).push(block));
                lemma_break_is_dropped(last_blocks(a, mid), block);
            }
        }
        assert(Assembler::flushed(a, mid));
        assert(are_pieces(moved, breaks_moved(without_trailing_breaks(last_blocks(a, mid)))));
    }
}

/// Page breaks of any kind in front of all content leave no trace: what follows
/// finds the flow as it was.
pub proof fn leading_breaks_leave_no_block(states: Seq<Assembler>, weak: Seq<bool>)
    requires
        states.len() == weak.len() + 1,
        states[0].nothing_shown(),
        forall|i: int|
            #![trigger weak[i]]
            0 <= i < weak.len() ==> page_break_taken(states[i], states[i + 1], weak[i]),
    ensures
        states.last() == states[0],
    decreases weak.len(),
{
    if weak.len() > 0 {
        let n = weak.len() - 1;
        assert forall|i: int| #![trigger weak.drop_last()[i]] 0 <= i < n implies page_break_taken(
            states.drop_last()[i],
            states.drop_last()[i + 1],
            weak.drop_last()[i],
        ) by {
            assert(weak.drop_last()[i] == weak[i]);
        }
        leading_breaks_leave_no_block(states.drop_last(), weak.drop_last());
        assert(states.drop_last().last() == states[n]);
        assert(page_break_taken(states[n], states[n + 1], weak[n]));
    }
}

/// Hard page breaks behind all content leave no block: whatever the flow becomes
/// with them, it becomes without them.
pub proof fn trailing_breaks_leave_no_block(
    states: Seq<Assembler>,
    width: i32,
    out: Seq<Block>,
)
    requires
        states.len() > 0,
        states[0].wf(),
        forall|i: int|
            #![trigger states[i + 1]]
            0 <= i < states.len() - 1 ==> page_break_taken(states[i], states[i + 1], false),
        is_finished(states.last(), width, out),
    ensures
        is_finished(states[0], width, out),
    decreases states.len(),
{
    if states.len() > 1 {
        let rest = states.skip(1);
        assert(page_break_taken(states[0], states[0int + 1], false));
        assert(rest[0] == states[1]);
        assert forall|i: int| #![trigger rest[i + 1]] 0 <= i < rest.len() - 1 implies page_break_taken(
            rest[i],
            rest[i + 1],
            false,
        ) by {
            assert(rest[i + 1] == states[i + 1 + 1]);
            assert(rest[i] == states[i + 1]);
        }
        assert(states[1].wf()) by {
            lemma_break_keeps_wf(states[0], states[1]);
        }
        assert(rest.last() == states.last());
        trailing_breaks_leave_no_block(rest, width, out);
        lemma_trailing_break(states[0], states[1], width, out);
    }
}

proof fn lemma_break_keeps_wf(a: Assembler, b: Assembler)
    requires
        a.wf(),
        page_break_taken(a, b, false),
    ensures
        b.wf(),
{
}

} // verus!
