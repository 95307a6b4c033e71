//! Page breaks and vertical space between blocks.

use vstd::prelude::*;

use crate::dom::{Block, Para, ParaChild, ParaProps, Run, Spacing};
use crate::length::{add_sat, sat32};

verus! {

/// Whether a child is a page break.
pub open spec fn is_page_break(child: ParaChild) -> bool {
    match child {
        ParaChild::Run(Run::PageBreak) => true,
        _ => false,
    }
}

/// Whether a block is a paragraph of page breaks alone.
pub open spec fn is_break_block(block: Block) -> bool {
    match block {
        Block::Para(para) => para.content@.len() > 0 && forall|i: int|
            0 <= i < para.content@.len() ==> is_page_break(#[trigger] para.content@[i]),
        _ => false,
    }
}

fn break_block(block: &Block) -> (r: bool)
    ensures
        r == is_break_block(*block),
{
    match block {
        Block::Para(para) => {
            if para.content.len() == 0 {
                return false;
            }
            let mut i: usize = 0;
            while i < para.content.len()
                invariant
                    i <= para.content@.len(),
                    *block == Block::Para(*para),
                    forall|k: int| 0 <= k < i ==> is_page_break(#[trigger] para.content@[k]),
                decreases para.content@.len() - i,
            {
                let is_break: bool = match &para.content[i] {
                    ParaChild::Run(Run::PageBreak) => true,
                    _ => false,
                };
                if !is_break {
                    return false;
                }
                i = i + 1;
            }
            true
        },
        _ => false,
    }
}

/// Blocks without the page breaks at their end.
pub open spec fn without_trailing_breaks(s: Seq<Block>) -> Seq<Block>
    decreases s.len(),
{
    if s.len() > 0 && is_break_block(s.last()) {
        without_trailing_breaks(s.drop_last())
    } else {
        s
    }
}

/// Drops the page breaks at the end: a break is always followed by content.
pub fn drop_trailing_breaks(blocks: &mut Vec<Block>)
    ensures
        final(blocks)@ == without_trailing_breaks(old(blocks)@),
{
    let mut n: usize = blocks.len();
    while n > 0 && break_block(&blocks[n - 1])
        invariant
            n == blocks@.len(),
            without_trailing_breaks(blocks@) == without_trailing_breaks(old(blocks)@),
        decreases n,
    {
        blocks.truncate(n - 1);
        assert(blocks@ =~= blocks@.take(n - 1));
        n = n - 1;
    }
}

/// A piece of the blocks with page breaks moved.
pub enum Piece {
    /// A block as it is.
    Kept(Block),
    /// A paragraph with a page break; `flagged` starts on a new page itself.
    Break { flagged: bool },
    /// Vertical space.
    Space(i32),
    /// An empty paragraph that starts on a new page, for a block that cannot.
    Carrier(i32),
}

/// Page breaks that wait for the block they apply to.
pub struct Waiting {
    /// Hard breaks.
    pub hard: nat,
    /// Whether a weak break came before them.
    pub weak: bool,
    /// Vertical space met since.
    pub space: i32,
}

/// Nothing waits.
pub open spec fn none_waiting() -> Waiting {
    Waiting { hard: 0, weak: false, space: 0 }
}

/// A paragraph that starts on a new page, with vertical space added above.
pub open spec fn on_new_page(para: Para, space: i32) -> Para {
    let base = match para.props.spacing {
        Some(s) => s,
        None => Spacing {
            before: None,
            after: None,
            line: None,
            line_rule_auto: false,
            line_rule_at_least: false,
        },
    };
    let before = match base.before {
        Some(b) => b,
        None => 0,
    };
    Para {
        props: ParaProps {
            page_break_before: true,
            spacing: if space != 0 {
                Some(Spacing { before: Some(sat32(before + space)), ..base })
            } else {
                para.props.spacing
            },
            ..para.props
        },
        content: para.content,
    }
}

/// Hard breaks as paragraphs of their own.
pub open spec fn break_pieces(n: nat, first_flagged: bool) -> Seq<Piece> {
    Seq::new(n, |i: int| Piece::Break { flagged: first_flagged && i == 0 })
}

/// The pieces in front of the block that waiting breaks apply to, and the block.
pub open spec fn settled(block: Block, w: Waiting) -> Seq<Piece> {
    match block {
        Block::Para(para) => (if w.hard > 1 || (w.hard > 0 && w.weak) {
            break_pieces(w.hard, w.weak)
        } else {
            seq![]
        }).push(Piece::Kept(Block::Para(on_new_page(para, w.space)))),
        _ => if w.hard > 0 {
            (if w.space != 0 {
                break_pieces(w.hard, false).push(Piece::Space(w.space))
            } else {
                break_pieces(w.hard, false)
            }).push(Piece::Kept(block))
        } else {
            seq![Piece::Carrier(w.space), Piece::Kept(block)]
        },
    }
}

/// The pieces of the first `n` blocks and the breaks that wait behind them.
pub open spec fn moved(blocks: Seq<Block>, n: int) -> (Seq<Piece>, Waiting)
    decreases n,
{
    if n <= 0 {
        (seq![], none_waiting())
    } else {
        let (out, w) = moved(blocks, n - 1);
        let block = blocks[n - 1];
        if is_break_block(block) {
            (out, Waiting { hard: w.hard + 1, ..w })
        } else if block is WeakPageBreak {
            (out, Waiting { weak: w.weak || w.hard == 0, ..w })
        } else if w.hard == 0 && !w.weak {
            (out.push(Piece::Kept(block)), w)
        } else {
            match block {
                Block::Tag(_) => (out.push(Piece::Kept(block)), w),
                Block::FlowSpace { dxa } => (out, Waiting { space: sat32(w.space + dxa), ..w }),
                _ => (out + settled(block, w), none_waiting()),
            }
        }
    }
}

/// The blocks with page breaks moved. Hard breaks at the end stay, a weak one
/// does nothing.
pub open spec fn breaks_moved(blocks: Seq<Block>) -> Seq<Piece> {
    let (out, w) = moved(blocks, blocks.len() as int);
    if w.space != 0 {
        (out + break_pieces(w.hard, false)).push(Piece::Space(w.space))
    } else {
        out + break_pieces(w.hard, false)
    }
}

/// Whether a block is a piece.
pub open spec fn is_piece(block: Block, piece: Piece) -> bool {
    match piece {
        Piece::Kept(b) => block == b,
        Piece::Break { flagged } => match block {
            Block::Para(para) => {
                &&& para.content@.len() == 1
                &&& is_page_break(para.content@[0])
                &&& para.props.page_break_before == flagged
                &&& (ParaProps { page_break_before: false, ..para.props }).is_default()
            },
            _ => false,
        },
        Piece::Space(dxa) => block == (Block::FlowSpace { dxa }),
        Piece::Carrier(space) => match block {
            Block::Para(para) => {
                &&& para.content@.len() == 0
                &&& para.props.page_break_before
                &&& para.props.spacing == Some(
                    Spacing {
                        before: Some(
                            if space > 0 {
                                space
                            } else {
                                0
                            },
                        ),
                        after: Some(0),
                        line: Some(1),
                        line_rule_auto: false,
                        line_rule_at_least: false,
                    },
                )
                &&& (ParaProps { page_break_before: false, spacing: None, ..para.props }).is_default()
            },
            _ => false,
        },
    }
}

/// Whether blocks are pieces, one by one.
pub open spec fn are_pieces(blocks: Seq<Block>, pieces: Seq<Piece>) -> bool {
    &&& blocks.len() == pieces.len()
    &&& forall|i: int|
        #![trigger blocks[i]]
        #![trigger pieces[i]]
        0 <= i < blocks.len() ==> is_piece(blocks[i], pieces[i])
}

/// A paragraph with a page break.
pub fn page_break_block(flagged: bool) -> (r: Block)
    ensures
        is_piece(r, Piece::Break { flagged }),
{
    let mut props: ParaProps = ParaProps::default();
    props.page_break_before = flagged;
    let mut content: Vec<ParaChild> = Vec::new();
    content.push(ParaChild::Run(Run::PageBreak));
    Block::Para(Para { props, content })
}

fn weak_page_break_carrier_block(space: i32) -> (r: Block)
    ensures
        is_piece(r, Piece::Carrier(space)),
{
    let mut props: ParaProps = ParaProps::default();
    props.page_break_before = true;
    props.spacing = Some(
        Spacing {
            before: Some(
                if space > 0 {
                    space
                } else {
                    0
                },
            ),
            after: Some(0),
            line: Some(1),
            line_rule_auto: false,
            line_rule_at_least: false,
        },
    );
    Block::Para(Para { props, content: Vec::new() })
}

fn push_piece(out: &mut Vec<Block>, block: Block, Ghost(pieces): Ghost<Seq<Piece>>, Ghost(
    piece,
): Ghost<Piece>)
    requires
        are_pieces(old(out)@, pieces),
        is_piece(block, piece),
    ensures
        are_pieces(final(out)@, pieces.push(piece)),
        final(out)@ == old(out)@.push(block),
{
    out.push(block);
    assert forall|i: int| 0 <= i < out@.len() implies is_piece(
        #[trigger] out@[i],
        pieces.push(piece)[i],
    ) by {
        if i < pieces.len() {
            assert(is_piece(old(out)@[i], pieces[i]));
        }
    }
}

fn push_breaks(out: &mut Vec<Block>, n: usize, first_flagged: bool, Ghost(pieces): Ghost<
    Seq<Piece>,
>)
    requires
        are_pieces(old(out)@, pieces),
    ensures
        are_pieces(final(out)@, pieces + break_pieces(n as nat, first_flagged)),
{
    let mut i: usize = 0;
    assert(pieces + break_pieces(0, first_flagged) =~= pieces);
    while i < n
        invariant
            i <= n,
            are_pieces(out@, pieces + break_pieces(i as nat, first_flagged)),
        decreases n - i,
    {
        let ghost so_far = pieces + break_pieces(i as nat, first_flagged);
        let flagged: bool = first_flagged && i == 0;
        let block: Block = page_break_block(flagged);
        push_piece(out, block, Ghost(so_far), Ghost(Piece::Break { flagged }));
        i = i + 1;
        assert(so_far.push(Piece::Break { flagged }) =~= pieces + break_pieces(
            i as nat,
            first_flagged,
        ));
    }
}

fn start_page(para: &mut Para, space: i32)
    ensures
        *final(para) == on_new_page(*old(para), space),
{
    para.props.page_break_before = true;
    if space != 0 {
        let mut spacing: Spacing = match para.props.spacing {
            Some(s) => s,
            None => Spacing::default(),
        };
        let before: i32 = match spacing.before {
            Some(b) => b,
            None => 0,
        };
        spacing.before = Some(add_sat(before, space));
        para.props.spacing = Some(spacing);
    }
}

fn push_settled(
    out: &mut Vec<Block>,
    block: Block,
    hard: usize,
    weak: bool,
    space: i32,
    Ghost(pieces): Ghost<Seq<Piece>>,
)
    requires
        are_pieces(old(out)@, pieces),
        hard > 0 || weak,
    ensures
        are_pieces(
            final(out)@,
            pieces + settled(block, Waiting { hard: hard as nat, weak, space }),
        ),
{
    let ghost w = Waiting { hard: hard as nat, weak, space };
    match block {
        Block::Para(para) => {
            let mut para: Para = para;
            let ghost mut so_far = pieces;
            if hard > 1 || (hard > 0 && weak) {
                push_breaks(out, hard, weak, Ghost(pieces));
                proof {
                    so_far = pieces + break_pieces(hard as nat, weak);
                }
            }
            start_page(&mut para, space);
            let ghost kept = Piece::Kept(Block::Para(para));
            push_piece(out, Block::Para(para), Ghost(so_far), Ghost(kept));
            assert(so_far.push(kept) =~= pieces + settled(block, w));
        },
        _ => {
            let ghost mut so_far = pieces;
            if hard > 0 {
                push_breaks(out, hard, false, Ghost(pieces));
                proof {
                    so_far = pieces + break_pieces(hard as nat, false);
                }
                if space != 0 {
                    push_piece(
                        out,
                        Block::FlowSpace { dxa: space },
                        Ghost(so_far),
                        Ghost(Piece::Space(space)),
                    );
                    proof {
                        so_far = so_far.push(Piece::Space(space));
                    }
                }
            } else {
                let carrier: Block = weak_page_break_carrier_block(space);
                push_piece(out, carrier, Ghost(so_far), Ghost(Piece::Carrier(space)));
                proof {
                    so_far = so_far.push(Piece::Carrier(space));
                }
            }
            let ghost kept = Piece::Kept(block);
            push_piece(out, block, Ghost(so_far), Ghost(kept));
            assert(so_far.push(kept) =~= pieces + settled(block, w));
        },
    }
}

/// Moves a page break onto the paragraph that follows it, which then starts on a
/// new page whether or not it would anyway. Further breaks stay as paragraphs of
/// their own, so that requested blank pages survive; a weak break adds a page
/// only where content precedes it.
pub fn move_page_breaks_before_following_blocks(blocks: &mut Vec<Block>)
    ensures
        are_pieces(final(blocks)@, breaks_moved(old(blocks)@)),
{
    let mut taken: Vec<Block> = Vec::new();
    core::mem::swap(blocks, &mut taken);
    let ghost all = taken@;
    let n: usize = taken.len();
    let mut out: Vec<Block> = Vec::new();
    let mut hard: usize = 0;
    let mut weak: bool = false;
    let mut space: i32 = 0;
    for block in it: taken
        invariant
            it.seq() == all,
            hard <= it.index(),
            all.len() == n,
            are_pieces(out@, moved(all, it.index() as int).0),
            moved(all, it.index() as int).1 == (Waiting { hard: hard as nat, weak, space }),
    {
        let ghost i = it.index() as int;
        let ghost pieces = moved(all, i).0;
        assert(block == all[i]);
        if break_block(&block) {
            hard = hard + 1;
        } else {
            match block {
                Block::WeakPageBreak => {
                    weak = weak || hard == 0;
                },
                other => {
                    if hard == 0 && !weak {
                        push_piece(&mut out, other, Ghost(pieces), Ghost(Piece::Kept(other)));
                    } else {
                        match other {
                            Block::Tag(tag) => {
                                push_piece(
                                    &mut out,
                                    Block::Tag(tag),
                                    Ghost(pieces),
                                    Ghost(Piece::Kept(Block::Tag(tag))),
                                );
                            },
                            Block::FlowSpace { dxa } => {
                                space = add_sat(space, dxa);
                            },
                            rest => {
                                push_settled(&mut out, rest, hard, weak, space, Ghost(pieces));
                                hard = 0;
                                weak = false;
                                space = 0;
                            },
                        }
                    }
                },
            }
        }
    }
    let ghost pieces = moved(all, all.len() as int).0;
    push_breaks(&mut out, hard, false, Ghost(pieces));
    if space != 0 {
        push_piece(
            &mut out,
            Block::FlowSpace { dxa: space },
            Ghost(pieces + break_pieces(hard as nat, false)),
            Ghost(Piece::Space(space)),
        );
    }
    *blocks = out;
}

/// What a block is apart from where it starts and the space above it; nothing
/// for page breaks and vertical space.
pub open spec fn essence(block: Block) -> Seq<Block> {
    if is_break_block(block) {
        seq![]
    } else {
        match block {
            Block::Para(para) => seq![
                Block::Para(
                    Para {
                        props: ParaProps {
                            page_break_before: false,
                            spacing: None,
                            ..para.props
                        },
                        content: para.content,
                    },
                ),
            ],
            Block::WeakPageBreak | Block::FlowSpace { .. } => seq![],
            _ => seq![block],
        }
    }
}

/// What blocks are apart from page breaks and vertical space.
pub open spec fn essences(s: Seq<Block>) -> Seq<Block>
    decreases s.len(),
{
    if s.len() == 0 {
        seq![]
    } else {
        essences(s.drop_last()) + essence(s.last())
    }
}

/// What pieces are apart from page breaks and vertical space.
pub open spec fn piece_essences(s: Seq<Piece>) -> Seq<Block>
    decreases s.len(),
{
    if s.len() == 0 {
        seq![]
    } else {
        piece_essences(s.drop_last()) + (match s.last() {
            Piece::Kept(block) => essence(block),
            _ => seq![],
        })
    }
}

proof fn lemma_piece_essences_add(a: Seq<Piece>, b: Seq<Piece>)
    ensures
        piece_essences(a + b) == piece_essences(a) + piece_essences(b),
    decreases b.len(),
{
    if b.len() == 0 {
        assert(a + b =~= a);
        assert(piece_essences(a) + piece_essences(b) =~= piece_essences(a));
    } else {
        lemma_piece_essences_add(a, b.drop_last());
        assert((a + b).drop_last() =~= a + b.drop_last());
        assert(piece_essences(a + b) =~= piece_essences(a) + piece_essences(b));
    }
}

proof fn lemma_breaks_have_no_essence(n: nat, flagged: bool)
    ensures
        piece_essences(break_pieces(n, flagged)) == Seq::<Block>::empty(),
    decreases n,
{
    if n > 0 {
        lemma_breaks_have_no_essence((n - 1) as nat, flagged);
        assert(break_pieces(n, flagged).drop_last() =~= break_pieces((n - 1) as nat, flagged));
        assert(piece_essences(break_pieces(n, flagged)) =~= Seq::<Block>::empty());
    }
}

proof fn lemma_piece_essences_push(s: Seq<Piece>, p: Piece)
    ensures
        piece_essences(s.push(p)) == piece_essences(s) + (match p {
            Piece::Kept(block) => essence(block),
            _ => seq![],
        }),
{
    assert(s.push(p).drop_last() =~= s);
}

proof fn lemma_settled_essence(block: Block, w: Waiting)
    requires
        !is_break_block(block),
        !(block is WeakPageBreak),
        !(block is FlowSpace),
    ensures
        piece_essences(settled(block, w)) == essence(block),
{
    lemma_breaks_have_no_essence(w.hard, w.weak);
    lemma_breaks_have_no_essence(w.hard, false);
    let none: Seq<Piece> = seq![];
    assert(piece_essences(none) =~= seq![]);
    match block {
        Block::Para(para) => {
            let started = Block::Para(on_new_page(para, w.space));
            assert(!is_break_block(started)) by {
                if is_break_block(started) {
                    assert forall|i: int| 0 <= i < para.content@.len() implies is_page_break(
                        #[trigger] para.content@[i],
                    ) by {}
                }
            }
            lemma_piece_essences_push(break_pieces(w.hard, w.weak), Piece::Kept(started));
            lemma_piece_essences_push(none, Piece::Kept(started));
            assert(piece_essences(settled(block, w)) =~= essence(block));
        },
        _ => {
            let breaks = break_pieces(w.hard, false);
            lemma_piece_essences_push(breaks, Piece::Space(w.space));
            lemma_piece_essences_push(breaks, Piece::Kept(block));
            lemma_piece_essences_push(breaks.push(Piece::Space(w.space)), Piece::Kept(block));
            lemma_piece_essences_push(none, Piece::Carrier(w.space));
            lemma_piece_essences_push(none.push(Piece::Carrier(w.space)), Piece::Kept(block));
            assert(seq![Piece::Carrier(w.space), Piece::Kept(block)] =~= none.push(
                Piece::Carrier(w.space),
            ).push(Piece::Kept(block)));
            assert(piece_essences(settled(block, w)) =~= essence(block));
        },
    }
}

proof fn lemma_moved_essence(blocks: Seq<Block>, n: int)
    requires
        0 <= n <= blocks.len(),
    ensures
        piece_essences(moved(blocks, n).0) == essences(blocks.take(n)),
    decreases n,
{
    if n == 0 {
        assert(piece_essences(moved(blocks, n).0) =~= essences(blocks.take(n)));
    } else {
        lemma_moved_essence(blocks, n - 1);
        let (out, w) = moved(blocks, n - 1);
        let block = blocks[n - 1];
        assert(blocks.take(n).drop_last() =~= blocks.take(n - 1));
        lemma_piece_essences_push(out, Piece::Kept(block));
        if !is_break_block(block) && !(block is WeakPageBreak) && !(block is FlowSpace) {
            lemma_settled_essence(block, w);
            lemma_piece_essences_add(out, settled(block, w));
        }
        assert(piece_essences(moved(blocks, n).0) =~= essences(blocks.take(n)));
    }
}

/// Moving page breaks loses no content: apart from breaks, vertical space and
/// where paragraphs start, the blocks are the same in the same order.
pub proof fn moving_breaks_keeps_content(blocks: Seq<Block>)
    ensures
        piece_essences(breaks_moved(blocks)) == essences(blocks),
{
    let n = blocks.len() as int;
    let (out, w) = moved(blocks, n);
    lemma_moved_essence(blocks, n);
    assert(blocks.take(n) =~= blocks);
    lemma_breaks_have_no_essence(w.hard, false);
    lemma_piece_essences_add(out, break_pieces(w.hard, false));
    lemma_piece_essences_push(out + break_pieces(w.hard, false), Piece::Space(w.space));
    assert(piece_essences(breaks_moved(blocks)) =~= essences(blocks));
}

} // verus!
