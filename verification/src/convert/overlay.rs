//! Labels at the right end of a heading line, and tab stops that fill a line.

use vstd::prelude::*;

use crate::convert::assemble::{Assembler, space_applied};
use crate::convert::breaks::{
    are_pieces, breaks_moved, drop_trailing_breaks, move_page_breaks_before_following_blocks,
    without_trailing_breaks,
};
use crate::dom::{
    AnchorWrap, Block, Drawing, Para, ParaChild, Run, TabAlign, TabStop,
};
use crate::props::{FlowLook, ParaLook, flow_look, flow_looks, opt_static};
use crate::text::str_eq;

verus! {

/// Whether a child marks a place without showing.
pub open spec fn is_marker(child: ParaChild) -> bool {
    child is BookmarkStart || child is BookmarkEnd || child is Tag
}

/// Whether a child is a drawing.
pub open spec fn is_drawing(child: ParaChild) -> bool {
    match child {
        ParaChild::Run(Run::Drawing(_)) => true,
        _ => false,
    }
}

/// Whether a text box holds one heading and otherwise tags.
pub open spec fn holds_one_heading(blocks: Seq<Block>) -> bool {
    exists|at: int|
        {
            &&& 0 <= at < blocks.len()
            &&& #[trigger] is_heading(blocks[at])
            &&& forall|i: int|
                0 <= i < blocks.len() && i != at ==> (#[trigger] blocks[i]) is Tag
        }
}

/// Whether a block is a paragraph with an outline level.
pub open spec fn is_heading(block: Block) -> bool {
    match block {
        Block::Para(para) => para.props.outline_lvl is Some,
        _ => false,
    }
}

/// Whether a drawing is a bare text box at the bottom right that holds a
/// heading.
pub open spec fn is_corner_label(drawing: Drawing) -> bool {
    match (drawing.anchor, drawing.shape) {
        (Some(anchor), Some(shape)) => {
            &&& !anchor.behind
            &&& anchor.wrap is Off
            &&& opt_static(anchor.pos_h.align) == Some("right"@)
            &&& anchor.pos_h.offset is None
            &&& opt_static(anchor.pos_v.align) == Some("bottom"@)
            &&& anchor.pos_v.offset is None
            &&& drawing.group is None
            &&& shape.fill is None
            &&& shape.stroke is None
            &&& match shape.txbx {
                Some(text_box) => holds_one_heading(text_box.blocks@),
                None => false,
            }
        },
        _ => false,
    }
}

/// Whether the children of a paragraph are one such drawing at `at`, and markers.
pub open spec fn is_overlay_at(content: Seq<ParaChild>, at: int) -> bool {
    &&& 0 <= at < content.len()
    &&& match content[at] {
        ParaChild::Run(Run::Drawing(drawing)) => is_corner_label(drawing),
        _ => false,
    }
    &&& forall|i: int| 0 <= i < content.len() && i != at ==> is_marker(#[trigger] content[i])
}

/// Whether the children of a paragraph are a label for the line above.
pub open spec fn is_overlay(content: Seq<ParaChild>) -> bool {
    exists|at: int| is_overlay_at(content, at)
}

/// The paragraph children of a text box.
pub open spec fn box_children(blocks: Seq<Block>) -> Seq<ParaChild>
    decreases blocks.len(),
{
    if blocks.len() == 0 {
        seq![]
    } else {
        box_children(blocks.drop_last()) + (match blocks.last() {
            Block::Para(para) => para.content@,
            Block::Tag(tag) => seq![ParaChild::Tag(tag)],
            _ => seq![],
        })
    }
}

/// What a child of a label leaves in the line: the content of its text box, or
/// the marker.
pub open spec fn unboxed(child: ParaChild) -> Seq<ParaChild> {
    match child {
        ParaChild::Run(Run::Drawing(drawing)) => match drawing.shape {
            Some(shape) => match shape.txbx {
                Some(text_box) => box_children(text_box.blocks@),
                None => seq![],
            },
            None => seq![],
        },
        _ => seq![child],
    }
}

/// What a label leaves in the line.
pub open spec fn unboxed_all(content: Seq<ParaChild>) -> Seq<ParaChild>
    decreases content.len(),
{
    if content.len() == 0 {
        seq![]
    } else {
        unboxed_all(content.drop_last()) + unboxed(content.last())
    }
}

/// The tab stops of a line whose content is pushed to the right end.
pub open spec fn end_tab(tabs: Seq<TabStop>, width: i32) -> Seq<TabStop> {
    if width > 0 && !(exists|i: int|
        0 <= i < tabs.len() && (#[trigger] tabs[i]).val == TabAlign::End) {
        tabs.push(TabStop { val: TabAlign::End, leader: None, pos: width })
    } else {
        tabs
    }
}

/// The index of the last block before `n` that is no tag, or -1.
pub open spec fn owner_before(blocks: Seq<FlowLook>, n: int) -> int
    decreases n,
{
    if n <= 0 {
        -1
    } else if blocks[n - 1] matches FlowLook::Other(Block::Tag(_)) {
        owner_before(blocks, n - 1)
    } else {
        n - 1
    }
}

/// Whether the block at `i` is a label for the line of the block at `owner`.
pub open spec fn is_label_for(blocks: Seq<FlowLook>, owner: int, i: int) -> bool {
    &&& 0 <= owner < i < blocks.len()
    &&& blocks[owner] is Para
    &&& match blocks[i] {
        FlowLook::Para { content, .. } => is_overlay(content),
        _ => false,
    }
}

/// The blocks with the label at `i` put at the right end of the line at `owner`.
pub open spec fn absorbed(blocks: Seq<FlowLook>, owner: int, i: int, width: i32) -> Seq<FlowLook> {
    match (blocks[owner], blocks[i]) {
        (FlowLook::Para { props, content }, FlowLook::Para { content: label, .. }) => {
            blocks.update(
                owner,
                FlowLook::Para {
                    props: ParaLook { tabs: end_tab(props.tabs, width), ..props },
                    content: content.push(ParaChild::Run(Run::FillTab)) + unboxed_all(label),
                },
            ).remove(i)
        },
        _ => blocks,
    }
}

/// The blocks with every label from `i` on put at the end of its line.
pub open spec fn folded(blocks: Seq<FlowLook>, i: int, width: i32) -> Seq<FlowLook>
    decreases blocks.len() - i,
{
    if i >= blocks.len() {
        blocks
    } else if is_label_for(blocks, owner_before(blocks, i), i) {
        folded(absorbed(blocks, owner_before(blocks, i), i, width), i, width)
    } else {
        folded(blocks, i + 1, width)
    }
}

fn one_heading(blocks: &Vec<Block>) -> (r: bool)
    ensures
        r == holds_one_heading(blocks@),
{
    let mut found: Option<usize> = None;
    let mut i: usize = 0;
    while i < blocks.len()
        invariant
            i <= blocks@.len(),
            match found {
                None => forall|k: int| 0 <= k < i ==> (#[trigger] blocks@[k]) is Tag,
                Some(at) => {
                    &&& at < i
                    &&& is_heading(blocks@[at as int])
                    &&& forall|k: int|
                        0 <= k < i && k != at ==> (#[trigger] blocks@[k]) is Tag
                },
            },
        decreases blocks@.len() - i,
    {
        match &blocks[i] {
            Block::Tag(_) => {},
            Block::Para(para) => {
                if found.is_some() || para.props.outline_lvl.is_none() {
                    proof {
                        let first = if found is Some {
                            found->0 as int
                        } else {
                            i as int
                        };
                        assert(!(blocks@[i as int] is Tag));
                        assert(!(blocks@[first] is Tag));
                        if holds_one_heading(blocks@) {
                            let at = choose|at: int|
                                {
                                    &&& 0 <= at < blocks@.len()
                                    &&& #[trigger] is_heading(blocks@[at])
                                    &&& forall|k: int|
                                        0 <= k < blocks@.len() && k != at ==> (
                                        #[trigger] blocks@[k]) is Tag
                                };
                            assert(at == i);
                            assert(at == first);
                        }
                    }
                    return false;
                }
                found = Some(i);
            },
            _ => {
                proof {
                    assert(!(blocks@[i as int] is Tag));
                    if holds_one_heading(blocks@) {
                        let at = choose|at: int|
                            {
                                &&& 0 <= at < blocks@.len()
                                &&& #[trigger] is_heading(blocks@[at])
                                &&& forall|k: int|
                                    0 <= k < blocks@.len() && k != at ==> (
                                    #[trigger] blocks@[k]) is Tag
                            };
                        assert(at == i);
                    }
                }
                return false;
            },
        }
        i = i + 1;
    }
    proof {
        if found is None && holds_one_heading(blocks@) {
            let at = choose|at: int|
                {
                    &&& 0 <= at < blocks@.len()
                    &&& #[trigger] is_heading(blocks@[at])
                    &&& forall|k: int|
                        0 <= k < blocks@.len() && k != at ==> (#[trigger] blocks@[k]) is Tag
                };
            assert(blocks@[at] is Tag);
        }
    }
    found.is_some()
}

fn is_text(s: Option<&'static str>, text: &str) -> (r: bool)
    ensures
        r == (opt_static(s) == Some(text@)),
{
    match s {
        Some(t) => str_eq(t, text),
        None => false,
    }
}

fn corner_label(drawing: &Drawing) -> (r: bool)
    ensures
        r == is_corner_label(*drawing),
{
    match (&drawing.anchor, &drawing.shape) {
        (Some(anchor), Some(shape)) => {
            if anchor.behind || !is_text(anchor.pos_h.align, "right")
                || anchor.pos_h.offset.is_some() || !is_text(anchor.pos_v.align, "bottom")
                || anchor.pos_v.offset.is_some() || drawing.group.is_some()
                || shape.fill.is_some() || shape.stroke.is_some() {
                return false;
            }
            let off: bool = match anchor.wrap {
                AnchorWrap::Off => true,
                _ => false,
            };
            if !off {
                return false;
            }
            match &shape.txbx {
                Some(text_box) => one_heading(&text_box.blocks),
                None => false,
            }
        },
        _ => false,
    }
}

/// Whether a block is a label for the line above: a text box at the bottom right
/// with one heading in it.
pub fn is_right_bottom_heading_overlay(block: &Block) -> (r: bool)
    ensures
        r == (match *block {
            Block::Para(para) => is_overlay(para.content@),
            _ => false,
        }),
{
    let para: &Para = match block {
        Block::Para(para) => para,
        _ => {
            return false;
        },
    };
    let mut found: Option<usize> = None;
    let mut i: usize = 0;
    while i < para.content.len()
        invariant
            i <= para.content@.len(),
            *block == Block::Para(*para),
            match found {
                None => forall|k: int| 0 <= k < i ==> is_marker(#[trigger] para.content@[k]),
                Some(at) => {
                    &&& at < i
                    &&& is_drawing(para.content@[at as int])
                    &&& forall|k: int|
                        0 <= k < i && k != at ==> is_marker(#[trigger] para.content@[k])
                },
            },
        decreases para.content@.len() - i,
    {
        match &para.content[i] {
            ParaChild::BookmarkStart { .. } | ParaChild::BookmarkEnd { .. } | ParaChild::Tag(_) => {
            },
            ParaChild::Run(Run::Drawing(_)) => {
                if let Some(at) = found {
                    assert forall|k: int| !is_overlay_at(para.content@, k) by {
                        if is_overlay_at(para.content@, k) {
                            if k != i {
                                assert(is_marker(para.content@[i as int]));
                            }
                            if k != at {
                                assert(is_marker(para.content@[at as int]));
                            }
                        }
                    }
                    return false;
                }
                found = Some(i);
            },
            _ => {
                assert forall|k: int| !is_overlay_at(para.content@, k) by {
                    if is_overlay_at(para.content@, k) && k != i {
                        assert(is_marker(para.content@[i as int]));
                    }
                }
                return false;
            },
        }
        i = i + 1;
    }
    match found {
        Some(at) => {
            let label: bool = match &para.content[at] {
                ParaChild::Run(Run::Drawing(drawing)) => corner_label(drawing),
                _ => false,
            };
            proof {
                if label {
                    assert(is_overlay_at(para.content@, at as int));
                } else {
                    assert forall|k: int| !is_overlay_at(para.content@, k) by {
                        if is_overlay_at(para.content@, k) && k != at {
                            assert(is_marker(para.content@[at as int]));
                        }
                    }
                }
            }
            label
        },
        None => {
            assert forall|k: int| !is_overlay_at(para.content@, k) by {
                if is_overlay_at(para.content@, k) {
                    assert(is_marker(para.content@[k]));
                }
            }
            false
        },
    }
}

fn push_box_children(blocks: Vec<Block>, out: &mut Vec<ParaChild>)
    ensures
        final(out)@ == old(out)@ + box_children(blocks@),
{
    let ghost before = out@;
    let ghost all = blocks@;
    assert(before + box_children(all.take(0)) =~= before);
    for block in it: blocks
        invariant
            it.seq() == all,
            out@ == before + box_children(all.take(it.index() as int)),
    {
        let ghost i = it.index() as int;
        assert(all.take(i + 1).drop_last() =~= all.take(i));
        let ghost prior = out@;
        match block {
            Block::Para(para) => {
                let mut content: Vec<ParaChild> = para.content;
                out.append(&mut content);
            },
            Block::Tag(tag) => out.push(ParaChild::Tag(tag)),
            _ => {},
        }
        assert(out@ =~= before + box_children(all.take(i + 1)));
    }
    assert(all.take(all.len() as int) =~= all);
}

fn push_unboxed(content: Vec<ParaChild>, out: &mut Vec<ParaChild>)
    ensures
        final(out)@ == old(out)@ + unboxed_all(content@),
{
    let ghost before = out@;
    let ghost all = content@;
    assert(before + unboxed_all(all.take(0)) =~= before);
    for child in it: content
        invariant
            it.seq() == all,
            out@ == before + unboxed_all(all.take(it.index() as int)),
    {
        let ghost i = it.index() as int;
        assert(all.take(i + 1).drop_last() =~= all.take(i));
        match child {
            ParaChild::Run(Run::Drawing(drawing)) => {
                if let Some(shape) = drawing.shape {
                    if let Some(text_box) = shape.txbx {
                        push_box_children(text_box.blocks, out);
                    }
                }
            },
            other => out.push(other),
        }
        assert(out@ =~= before + unboxed_all(all.take(i + 1)));
    }
    assert(all.take(all.len() as int) =~= all);
}

fn push_end_tab(tabs: &mut Vec<TabStop>, width: i32)
    ensures
        final(tabs)@ == end_tab(old(tabs)@, width),
{
    if width <= 0 {
        return;
    }
    let mut i: usize = 0;
    while i < tabs.len()
        invariant
            i <= tabs@.len(),
            *tabs == *old(tabs),
            forall|k: int| 0 <= k < i ==> (#[trigger] tabs@[k]).val != TabAlign::End,
        decreases tabs@.len() - i,
    {
        if tabs[i].val == TabAlign::End {
            return;
        }
        i = i + 1;
    }
    tabs.push(TabStop { val: TabAlign::End, leader: None, pos: width });
}

fn find_owner(blocks: &Vec<Block>, n: usize) -> (r: Option<usize>)
    requires
        n <= blocks@.len(),
    ensures
        match r {
            Some(at) => at == owner_before(flow_looks(blocks@), n as int) && at < n,
            None => owner_before(flow_looks(blocks@), n as int) == -1,
        },
{
    let mut i: usize = n;
    while i > 0
        invariant
            i <= n <= blocks@.len(),
            owner_before(flow_looks(blocks@), n as int) == owner_before(
                flow_looks(blocks@),
                i as int,
            ),
        decreases i,
    {
        assert(flow_looks(blocks@)[i - 1] == flow_look(blocks@[i - 1]));
        let tag: bool = match &blocks[i - 1] {
            Block::Tag(_) => true,
            _ => false,
        };
        if !tag {
            return Some(i - 1);
        }
        i = i - 1;
    }
    None
}

fn absorb(blocks: &mut Vec<Block>, owner: usize, i: usize, width: i32)
    requires
        is_label_for(flow_looks(old(blocks)@), owner as int, i as int),
    ensures
        flow_looks(final(blocks)@) == absorbed(
            flow_looks(old(blocks)@),
            owner as int,
            i as int,
            width,
        ),
{
    let ghost before = flow_looks(blocks@);
    let removed: Block = blocks.remove(i);
    assert(before[i as int] == flow_look(removed));
    assert(before[owner as int] == flow_look(blocks@[owner as int]));
    let ghost rest = blocks@;
    if let Block::Para(label) = removed {
        if let Block::Para(para) = &mut blocks[owner] {
            para.content.push(ParaChild::Run(Run::FillTab));
            push_unboxed(label.content, &mut para.content);
            push_end_tab(&mut para.props.tabs, width);
        }
    }
    assert(flow_looks(blocks@) =~= absorbed(before, owner as int, i as int, width));
}

/// Folds a line and the label placed at its bottom right into one line: a tab
/// pushes the label's text to a tab stop at the right end.
pub fn fold_right_aligned_heading_overlays(blocks: &mut Vec<Block>, width: i32)
    ensures
        flow_looks(final(blocks)@) == folded(flow_looks(old(blocks)@), 1, width),
{
    let mut i: usize = 1;
    while i < blocks.len()
        invariant
            i >= 1,
            folded(flow_looks(blocks@), i as int, width) == folded(
                flow_looks(old(blocks)@),
                1,
                width,
            ),
        decreases blocks@.len() - i,
    {
        let ghost looks = flow_looks(blocks@);
        let owner: Option<usize> = find_owner(blocks, i);
        let mut label: bool = false;
        assert(looks[i as int] == flow_look(blocks@[i as int]));
        if let Some(at) = owner {
            assert(looks[at as int] == flow_look(blocks@[at as int]));
            let para: bool = match &blocks[at] {
                Block::Para(_) => true,
                _ => false,
            };
            label = para && is_right_bottom_heading_overlay(&blocks[i]);
            if label {
                absorb(blocks, at, i, width);
                assert(flow_looks(blocks@).len() == looks.len() - 1);
            }
        }
        if !label {
            i = i + 1;
        }
    }
}

/// Whether a paragraph has content pushed to its right end.
pub open spec fn fills(content: Seq<ParaChild>) -> bool {
    exists|i: int| 0 <= i < content.len() && is_fill_tab(#[trigger] content[i])
}

/// Whether a child is a tab from fractional space.
pub open spec fn is_fill_tab(child: ParaChild) -> bool {
    match child {
        ParaChild::Run(Run::FillTab) => true,
        _ => false,
    }
}

/// A block with the tab stop that its fractional space needs.
pub open spec fn with_fill_tab(block: FlowLook, width: i32) -> FlowLook {
    match block {
        FlowLook::Para { props, content } => if fills(content) {
            FlowLook::Para {
                props: ParaLook { tabs: end_tab(props.tabs, width), ..props },
                content,
            }
        } else {
            block
        },
        FlowLook::Other(_) => block,
    }
}

fn has_fill_tab(content: &Vec<ParaChild>) -> (r: bool)
    ensures
        r == fills(content@),
{
    let mut i: usize = 0;
    while i < content.len()
        invariant
            i <= content@.len(),
            forall|k: int| 0 <= k < i ==> !is_fill_tab(#[trigger] content@[k]),
        decreases content@.len() - i,
    {
        let fill: bool = match &content[i] {
            ParaChild::Run(Run::FillTab) => true,
            _ => false,
        };
        if fill {
            assert(is_fill_tab(content@[i as int]));
            return true;
        }
        i = i + 1;
    }
    false
}

/// Gives every paragraph with fractional space a tab stop at the right end.
pub fn add_fill_tabs(blocks: &mut Vec<Block>, width: i32)
    ensures
        final(blocks)@.len() == old(blocks)@.len(),
        forall|i: int|
            0 <= i < final(blocks)@.len() ==> flow_look(#[trigger] final(blocks)@[i])
                == with_fill_tab(flow_look(old(blocks)@[i]), width),
{
    let n: usize = blocks.len();
    let mut i: usize = 0;
    while i < n
        invariant
            i <= n,
            n == blocks@.len(),
            blocks@.len() == old(blocks)@.len(),
            forall|k: int|
                0 <= k < i ==> flow_look(#[trigger] blocks@[k]) == with_fill_tab(
                    flow_look(old(blocks)@[k]),
                    width,
                ),
            forall|k: int| i <= k < n ==> #[trigger] blocks@[k] == old(blocks)@[k],
        decreases n - i,
    {
        if let Block::Para(para) = &mut blocks[i] {
            if has_fill_tab(&para.content) {
                push_end_tab(&mut para.props.tabs, width);
            }
        }
        i = i + 1;
    }
}

/// The blocks of a flow with the gathered paragraph `mid` put among them and the
/// waiting space applied to it.
pub open spec fn last_blocks(a: Assembler, mid: Assembler) -> Seq<Block> {
    space_applied(mid.blocks@, a.blocks@.len() as int, a.space).0
}

/// Whether `out` is what a flow becomes: the last paragraph is put among the
/// blocks, page breaks settle, labels join their lines and fractional space gets
/// its tab stops.
pub open spec fn is_finished(a: Assembler, width: i32, out: Seq<Block>) -> bool {
    exists|mid: Assembler, moved: Seq<Block>|
        {
            &&& #[trigger] Assembler::flushed(a, mid)
            &&& #[trigger] are_pieces(
                moved,
                breaks_moved(without_trailing_breaks(last_blocks(a, mid))),
            )
            &&& out.len() == folded(flow_looks(moved), 1, width).len()
            &&& forall|i: int|
                0 <= i < out.len() ==> flow_look(#[trigger] out[i]) == with_fill_tab(
                    folded(flow_looks(moved), 1, width)[i],
                    width,
                )
        }
}

impl Assembler {
    /// Ends the flow: the last paragraph is put among the blocks, page breaks
    /// settle, labels join their lines and fractional space gets its tab stops.
    pub fn finish(self, width: i32) -> (r: Vec<Block>)
        requires
            self.wf(),
        ensures
            is_finished(self, width, r@),
    {
        let ghost first = self;
        let mut assembler: Assembler = self;
        assembler.parbreak();
        let ghost last = (Assembler { after_par: first.after_par, ..assembler });
        let mut blocks: Vec<Block> = assembler.blocks;
        drop_trailing_breaks(&mut blocks);
        move_page_breaks_before_following_blocks(&mut blocks);
        let ghost moved = blocks@;
        fold_right_aligned_heading_overlays(&mut blocks, width);
        let ghost mid = blocks@;
        assert(flow_looks(mid).len() == mid.len());
        add_fill_tabs(&mut blocks, width);
        proof {
            assert(Assembler::settled(first, last));
            let flushed = choose|flushed: Assembler|
                {
                    &&& #[trigger] Assembler::flushed(first, flushed)
                    &&& (last.blocks@, last.space) == space_applied(
                        flushed.blocks@,
                        first.blocks@.len() as int,
                        first.space,
                    )
                };
            assert(last.blocks@ == last_blocks(first, flushed));
            assert(are_pieces(
                moved,
                breaks_moved(without_trailing_breaks(last_blocks(first, flushed))),
            ));
            assert forall|i: int| 0 <= i < blocks@.len() implies flow_look(#[trigger] blocks@[i])
                == with_fill_tab(folded(flow_looks(moved), 1, width)[i], width) by {
                assert(flow_looks(mid)[i] == flow_look(mid[i]));
            }
        }
        blocks
    }
}

} // verus!
