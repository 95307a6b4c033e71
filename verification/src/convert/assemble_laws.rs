//! Where the children of a flow go, and where space between blocks ends up.

use vstd::prelude::*;

use crate::content::{Class, Content, Kind, holds_class};
use crate::convert::assemble::{Assembler, FlowRoute, passes_space, space_applied, space_index};
use crate::convert::breaks::{Piece, is_break_block, moved, settled};
use crate::convert::predicates::{FrameFacts, converts_as_block, stays_inline};
use crate::dom::{Block, Para};

verus! {

/// The children of a flow go where their kind belongs: paragraph breaks, tags and
/// vertical space on their own, page breaks in front of all content nowhere, text
/// into the paragraph, and block elements to the blocks.
pub proof fn children_of_a_flow_go_their_way(a: Assembler, child: Content, frame: FrameFacts)
    ensures
        a.route(child, frame) == FlowRoute::Parbreak <==> child.kind is Parbreak,
        a.route(child, frame) == FlowRoute::Tag <==> child.kind is Tag,
        a.route(child, frame) == FlowRoute::VSpace <==> child.kind is VSpace,
        a.route(child, frame) == FlowRoute::LeadingBreak <==> child.kind is Pagebreak
            && !a.gathering && a.pending@.len() == 0 && forall|i: int|
            0 <= i < a.blocks@.len() ==> (#[trigger] a.blocks@[i]) is Tag,
        a.route(child, frame) is Paragraph || a.route(child, frame) == FlowRoute::SoleContainer
            <==> child.kind is Par,
        child.kind is Par && (child.labelled || child.children@.len() == 0) ==> a.route(
            child,
            frame,
        ) is Paragraph,
        child.kind is Par && !child.labelled && child.children@.len() > 0 ==> (a.route(
            child,
            frame,
        ) == FlowRoute::SoleContainer <==> converts_as_block(child.children@[0], frame)),
        a.route(child, frame) is Paragraph ==> (a.route(child, frame)->continues <==> a.gathering
            && !a.after_par),
        child.kind == (Kind::Equation { block: true }) ==> a.route(child, frame)
            == FlowRoute::Block,
        child.kind == (Kind::Equation { block: false }) ==> a.route(child, frame)
            == (FlowRoute::Split { unreviewed: true }),
        child.kind is Raw && child.kind->Raw_block ==> a.route(child, frame) == FlowRoute::Block,
        child.kind is Raw && !child.kind->Raw_block ==> a.route(child, frame)
            == (FlowRoute::Split { unreviewed: true }),
        child.kind is Box && child.children@.len() == 0 ==> a.route(child, frame)
            == (FlowRoute::Split { unreviewed: false }),
        child.kind is Box && child.children@.len() > 0 && holds_class(
            child.children@[0],
            Class::BlockFlow,
        ) ==> a.route(child, frame) == FlowRoute::Block,
        child.kind is Box && child.children@.len() > 0 && !holds_class(
            child.children@[0],
            Class::BlockFlow,
        ) ==> a.route(child, frame) == (FlowRoute::Split { unreviewed: false }),
        child.kind is Text || child.kind is Space || child.kind is Strong || child.kind is Emph
            || child.kind is Link || child.kind is Ref || child.kind is Image ==> a.route(
            child,
            frame,
        ) == FlowRoute::Inline,
        a.route(child, frame) == FlowRoute::Inline ==> stays_inline(child),
        child.kind is List || child.kind is Enum || child.kind is Terms || child.kind is Table
            || child.kind is Grid || child.kind is Heading || child.kind is Figure
            || child.kind is Quote || child.kind is Outline || child.kind is Columns
            || child.kind is Block || child.kind is Title || child.kind is Stack
            || child.kind is Place || child.kind is Colbreak ==> a.route(child, frame)
            == FlowRoute::Block,
{
}

proof fn lemma_space_index(blocks: Seq<Block>, i: int)
    requires
        0 <= i <= blocks.len(),
    ensures
        i <= space_index(blocks, i) <= blocks.len(),
        forall|j: int| i <= j < space_index(blocks, i) ==> passes_space(#[trigger] blocks[j]),
        space_index(blocks, i) < blocks.len() ==> !passes_space(blocks[space_index(blocks, i)]),
    decreases blocks.len() - i,
{
    if i < blocks.len() && passes_space(blocks[i]) {
        lemma_space_index(blocks, i + 1);
    }
}

/// The space that a paragraph has above it.
pub open spec fn above(para: Para) -> int {
    match para.props.spacing {
        Some(s) => match s.before {
            Some(b) => b as int,
            None => 0,
        },
        None => 0,
    }
}

/// Vertical space goes to the first block behind it that is neither a tag nor a
/// break: on top of a paragraph, into other space, and in front of anything else.
/// Without such a block it goes on waiting.
pub proof fn space_goes_to_the_next_block(blocks: Seq<Block>, from: int, space: i32, k: int)
    requires
        0 <= from <= k <= blocks.len(),
        forall|j: int|
            from <= j < k ==> (#[trigger] blocks[j]) is Tag || blocks[j] is SectionBreak
                || blocks[j] is WeakPageBreak,
        k < blocks.len() ==> !(blocks[k] is Tag) && !(blocks[k] is SectionBreak) && !(
        blocks[k] is WeakPageBreak),
        space != 0,
    ensures
        k == blocks.len() ==> space_applied(blocks, from, space) == (blocks, space),
        k < blocks.len() ==> space_applied(blocks, from, space).1 == 0,
        k < blocks.len() && blocks[k] is Para ==> {
            let after = space_applied(blocks, from, space).0;
            &&& after.len() == blocks.len()
            &&& after[k] is Para
            &&& after[k]->Para_0.content == blocks[k]->Para_0.content
            &&& i32::MIN <= above(blocks[k]->Para_0) + space <= i32::MAX ==> above(
                after[k]->Para_0,
            ) == above(blocks[k]->Para_0) + space
            &&& forall|j: int| 0 <= j < blocks.len() && j != k ==> #[trigger] after[j] == blocks[j]
        },
        k < blocks.len() && blocks[k] is FlowSpace ==> {
            let after = space_applied(blocks, from, space).0;
            &&& after.len() == blocks.len()
            &&& after[k] is FlowSpace
            &&& i32::MIN <= blocks[k]->dxa + space <= i32::MAX ==> after[k]->dxa == blocks[k]->dxa
                + space
            &&& forall|j: int| 0 <= j < blocks.len() && j != k ==> #[trigger] after[j] == blocks[j]
        },
        k < blocks.len() && !(blocks[k] is Para) && !(blocks[k] is FlowSpace) ==> {
            let after = space_applied(blocks, from, space).0;
            &&& after == blocks.insert(k, Block::FlowSpace { dxa: space })
        },
{
    lemma_space_index(blocks, from);
    let at = space_index(blocks, from);
    if at < k {
        assert(passes_space(blocks[at]));
    }
    if k < at {
        assert(passes_space(blocks[k]));
    }
}

/// No space changes nothing.
pub proof fn no_space_changes_nothing(blocks: Seq<Block>, from: int)
    ensures
        space_applied(blocks, from, 0) == (blocks, 0i32),
{
}

// -- Page breaks -------------------------------------------------------------

/// Page breaks wait for what they apply to: a hard one counts, a weak one counts
/// only in front of hard ones, and neither leaves a block behind.
pub proof fn page_breaks_wait(blocks: Seq<Block>, n: int)
    requires
        0 <= n < blocks.len(),
    ensures
        is_break_block(blocks[n]) ==> {
            &&& moved(blocks, n + 1).0 == moved(blocks, n).0
            &&& moved(blocks, n + 1).1.hard == moved(blocks, n).1.hard + 1
            &&& moved(blocks, n + 1).1.weak == moved(blocks, n).1.weak
        },
        blocks[n] is WeakPageBreak ==> {
            &&& moved(blocks, n + 1).0 == moved(blocks, n).0
            &&& moved(blocks, n + 1).1.hard == moved(blocks, n).1.hard
            &&& moved(blocks, n + 1).1.weak <==> moved(blocks, n).1.weak || moved(
                blocks,
                n,
            ).1.hard == 0
        },
        blocks[n] is Tag ==> moved(blocks, n + 1).0 == moved(blocks, n).0.push(
            Piece::Kept(blocks[n]),
        ) && moved(blocks, n + 1).1 == moved(blocks, n).1,
{
}

/// The first paragraph behind page breaks starts on a new page, keeps its content,
/// and gets the space that was met in between on top; then nothing waits any more.
pub proof fn paragraphs_start_behind_page_breaks(blocks: Seq<Block>, n: int)
    requires
        0 <= n < blocks.len(),
        moved(blocks, n).1.hard > 0 || moved(blocks, n).1.weak,
        blocks[n] is Para,
        !is_break_block(blocks[n]),
    ensures
        ({
            let w = moved(blocks, n).1;
            let out = moved(blocks, n + 1).0;
            &&& out.len() > 0
            &&& out.last() is Kept
            &&& out.last()->Kept_0 is Para
            &&& out.last()->Kept_0->Para_0.props.page_break_before
            &&& out.last()->Kept_0->Para_0.content == blocks[n]->Para_0.content
            &&& i32::MIN <= above(blocks[n]->Para_0) + w.space <= i32::MAX ==> above(
                out.last()->Kept_0->Para_0,
            ) == above(blocks[n]->Para_0) + w.space
            &&& w.hard == 1 && !w.weak ==> out.len() == moved(blocks, n).0.len() + 1
            &&& w.hard == 0 ==> out.len() == moved(blocks, n).0.len() + 1
            &&& w.hard > 1 ==> out.len() == moved(blocks, n).0.len() + w.hard + 1
        }),
        moved(blocks, n + 1).1.hard == 0,
        !moved(blocks, n + 1).1.weak,
        moved(blocks, n + 1).1.space == 0,
{
    let w = moved(blocks, n).1;
    let pieces = settled(blocks[n], w);
    let out = moved(blocks, n + 1).0;
    assert(out == moved(blocks, n).0 + pieces);
    assert(out.last() == pieces.last());
}

/// A block that nothing waits for stays as it is.
pub proof fn other_blocks_stay(blocks: Seq<Block>, n: int)
    requires
        0 <= n < blocks.len(),
        moved(blocks, n).1.hard == 0,
        !moved(blocks, n).1.weak,
        !is_break_block(blocks[n]),
        !(blocks[n] is WeakPageBreak),
    ensures
        moved(blocks, n + 1).0 == moved(blocks, n).0.push(Piece::Kept(blocks[n])),
        moved(blocks, n + 1).1 == moved(blocks, n).1,
{
}

} // verus!
