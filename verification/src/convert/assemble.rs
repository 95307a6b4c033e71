//! Gathering inline content into paragraphs between blocks.

use vstd::prelude::*;

use crate::content::{Class, Content, Kind, body, holds_class};
use crate::convert::predicates::{
    FrameFacts, body_inline_extractable, converts_as_block, is_inline,
    paragraph_sole_block_container, stays_inline,
};
use crate::ctx::bookmarks::{bookmarked, page_marked};
use crate::ctx::format::{ParStyle, consecutive_first_line_indent, is_par_formatting};
use crate::ctx::state::DocxCtx;
use crate::dom::{
    Block, Indent, Location, Para, ParaChild, ParaProps, ReviewCandidateKind, ReviewJoinId,
    ReviewOrigin, Span, Spacing, Tag,
};
use crate::length::{abs_to_twip, add_sat, sat32, twips};
use crate::text::dec;

verus! {

/// Whether a block neither carries vertical space nor ends the search for one
/// that does.
pub open spec fn passes_space(block: Block) -> bool {
    block is Tag || block is SectionBreak || block is WeakPageBreak
}

/// The index of the first block from `i` on that vertical space applies to, or
/// the length.
pub open spec fn space_index(blocks: Seq<Block>, i: int) -> int
    decreases blocks.len() - i,
{
    if 0 <= i < blocks.len() && passes_space(blocks[i]) {
        space_index(blocks, i + 1)
    } else {
        i
    }
}

/// Paragraph formatting with space added above.
pub open spec fn pushed_down(props: ParaProps, space: i32) -> ParaProps {
    let base = match props.spacing {
        Some(s) => s,
        None => Spacing {
            before: None,
            after: None,
            line: None,
            line_rule_auto: false,
            line_rule_at_least: false,
        },
    };
    let before = match base.before {
        Some(b) => b,
        None => 0,
    };
    ParaProps { spacing: Some(Spacing { before: Some(sat32(before + space)), ..base }), ..props }
}

/// Blocks with vertical space applied from `from` on, and the space that found
/// no block.
pub open spec fn space_applied(blocks: Seq<Block>, from: int, space: i32) -> (Seq<Block>, i32) {
    let at = space_index(blocks, from);
    if space == 0 {
        (blocks, 0)
    } else if at >= blocks.len() {
        (blocks, space)
    } else {
        match blocks[at] {
            Block::Para(para) => (
                blocks.update(
                    at,
                    Block::Para(
                        Para { props: pushed_down(para.props, space), content: para.content },
                    ),
                ),
                0,
            ),
            Block::FlowSpace { dxa } => (
                blocks.update(at, Block::FlowSpace { dxa: sat32(dxa + space) }),
                0,
            ),
            _ => (blocks.insert(at, Block::FlowSpace { dxa: space }), 0),
        }
    }
}

fn push_down(props: &mut ParaProps, space: i32)
    ensures
        *final(props) == pushed_down(*old(props), space),
{
    let mut spacing: Spacing = match props.spacing {
        Some(s) => s,
        None => Spacing::default(),
    };
    let before: i32 = match spacing.before {
        Some(b) => b,
        None => 0,
    };
    spacing.before = Some(add_sat(before, space));
    props.spacing = Some(spacing);
}

/// Applies vertical space to the first block from `from` on that can take it: a
/// paragraph or vertical space grows, a table gets space of its own in front.
/// Returns the space that found no block.
pub fn apply_pending_v(blocks: &mut Vec<Block>, from: usize, space: i32) -> (r: i32)
    ensures
        (final(blocks)@, r) == space_applied(old(blocks)@, from as int, space),
{
    if space == 0 {
        return 0;
    }
    let n: usize = blocks.len();
    let mut i: usize = from;
    while i < n
        invariant
            from <= i,
            n == blocks@.len(),
            space != 0,
            *blocks == *old(blocks),
            space_index(blocks@, from as int) == space_index(blocks@, i as int),
        decreases n - i,
    {
        let passes: bool = match &blocks[i] {
            Block::Tag(_) | Block::SectionBreak(_) | Block::WeakPageBreak => true,
            _ => false,
        };
        if !passes {
            let grows: bool = match &mut blocks[i] {
                Block::Para(para) => {
                    push_down(&mut para.props, space);
                    true
                },
                Block::FlowSpace { dxa } => {
                    *dxa = add_sat(*dxa, space);
                    true
                },
                _ => false,
            };
            if !grows {
                blocks.insert(i, Block::FlowSpace { dxa: space });
            }
            assert(blocks@ =~= space_applied(old(blocks)@, from as int, space).0);
            return 0;
        }
        i = i + 1;
    }
    space
}

/// Blocks under construction, and the paragraph being gathered.
pub struct Assembler {
    pub blocks: Vec<Block>,
    /// The children of the paragraph being gathered.
    pub pending: Vec<ParaChild>,
    /// Page anchors for the start of the next paragraph.
    pub markers: Vec<ParaChild>,
    /// The formatting of the paragraph being gathered.
    pub props: Option<ParaProps>,
    /// Whether a paragraph is being gathered.
    pub gathering: bool,
    /// Vertical space for the next block.
    pub space: i32,
    /// Whether the last content was a whole paragraph.
    pub after_par: bool,
    /// Whether nothing but one space was gathered.
    pub blank: bool,
}

/// How a child of the flow is taken up.
#[derive(Debug, Copy, Clone, PartialEq, Eq, Structural)]
pub enum FlowRoute {
    /// A page break in front of all content says nothing.
    LeadingBreak,
    Parbreak,
    /// A container alone in a paragraph, converted as a block.
    SoleContainer,
    /// A paragraph; `continues` is one that goes on behind inline content.
    Paragraph { continues: bool },
    Tag,
    VSpace,
    /// Inline content that split a paragraph; `unreviewed` ends its review.
    Split { unreviewed: bool },
    Inline,
    Block,
}

impl Assembler {
    /// Whether nothing is pending unless a paragraph is being gathered.
    pub open spec fn wf(self) -> bool {
        !self.gathering ==> self.pending@.len() == 0
    }

    /// Whether no block shows yet.
    pub open spec fn nothing_shown(self) -> bool {
        &&& !self.gathering
        &&& self.pending@.len() == 0
        &&& forall|i: int| 0 <= i < self.blocks@.len() ==> (#[trigger] self.blocks@[i]) is Tag
    }

    /// How a child is taken up. `frame` is that of the container alone in it.
    pub open spec fn route(self, child: Content, frame: FrameFacts) -> FlowRoute {
        match child.kind {
            Kind::Pagebreak => if self.nothing_shown() {
                FlowRoute::LeadingBreak
            } else {
                FlowRoute::Block
            },
            Kind::Parbreak => FlowRoute::Parbreak,
            Kind::Par => if !child.labelled && body(child) is Some && converts_as_block(
                body(child)->0,
                frame,
            ) {
                FlowRoute::SoleContainer
            } else {
                FlowRoute::Paragraph { continues: !self.after_par && self.gathering }
            },
            Kind::Tag => FlowRoute::Tag,
            Kind::VSpace => FlowRoute::VSpace,
            Kind::Equation { block } => if block {
                FlowRoute::Block
            } else {
                FlowRoute::Split { unreviewed: true }
            },
            Kind::Raw { block, .. } => if block {
                FlowRoute::Block
            } else {
                FlowRoute::Split { unreviewed: true }
            },
            Kind::Box { .. } => if body(child) is None || !holds_class(
                body(child)->0,
                Class::BlockFlow,
            ) {
                FlowRoute::Split { unreviewed: false }
            } else {
                FlowRoute::Block
            },
            _ => if stays_inline(child) {
                FlowRoute::Inline
            } else {
                FlowRoute::Block
            },
        }
    }

    /// Whether `after` is `before` with the gathered paragraph put among the
    /// blocks. A lone space is dropped.
    pub open spec fn flushed(before: Self, after: Self) -> bool {
        &&& after.markers == before.markers
        &&& after.space == before.space
        &&& after.after_par == before.after_par
        &&& after.props is None
        &&& !after.gathering
        &&& after.pending@.len() == 0
        &&& if !before.gathering {
            after.blocks == before.blocks && after.blank == before.blank
        } else if before.blank {
            after.blocks == before.blocks && !after.blank
        } else {
            &&& !after.blank
            &&& after.blocks@.len() == before.blocks@.len() + 1
            &&& after.blocks@.drop_last() == before.blocks@
            &&& match after.blocks@.last() {
                Block::Para(para) => {
                    &&& para.content == before.pending
                    &&& match before.props {
                        Some(props) => para.props == props,
                        None => para.props.is_default(),
                    }
                },
                _ => false,
            }
        }
    }

    /// Whether `after` is `before` with the gathered paragraph put among the
    /// blocks and the waiting space applied to it.
    pub open spec fn settled(before: Self, after: Self) -> bool {
        exists|mid: Self|
            {
                &&& #[trigger] Self::flushed(before, mid)
                &&& (after.blocks@, after.space) == space_applied(
                    mid.blocks@,
                    before.blocks@.len() as int,
                    before.space,
                )
                &&& after == (Self { blocks: after.blocks, space: after.space, ..mid })
            }
    }

    /// An assembler without blocks.
    pub fn new() -> (r: Self)
        ensures
            r.wf(),
            r.blocks@.len() == 0,
            r.pending@.len() == 0,
            r.markers@.len() == 0,
            r.props is None,
            !r.gathering,
            r.space == 0,
            !r.after_par,
            !r.blank,
    {
        Assembler {
            blocks: Vec::new(),
            pending: Vec::new(),
            markers: Vec::new(),
            props: None,
            gathering: false,
            space: 0,
            after_par: false,
            blank: false,
        }
    }

    pub(crate) fn shows_nothing(&self) -> (r: bool)
        ensures
            r == self.nothing_shown(),
    {
        if self.gathering || self.pending.len() > 0 {
            return false;
        }
        let mut i: usize = 0;
        while i < self.blocks.len()
            invariant
                i <= self.blocks@.len(),
                forall|k: int| 0 <= k < i ==> (#[trigger] self.blocks@[k]) is Tag,
            decreases self.blocks@.len() - i,
        {
            let tag: bool = match &self.blocks[i] {
                Block::Tag(_) => true,
                _ => false,
            };
            if !tag {
                return false;
            }
            i = i + 1;
        }
        true
    }

    /// Decides how a child of the flow is taken up.
    pub fn classify(&self, child: &Content, frame: FrameFacts) -> (r: FlowRoute)
        ensures
            r == self.route(*child, frame),
    {
        match child.kind {
            Kind::Pagebreak => if self.shows_nothing() {
                FlowRoute::LeadingBreak
            } else {
                FlowRoute::Block
            },
            Kind::Parbreak => FlowRoute::Parbreak,
            Kind::Par => {
                if !child.labelled && child.children.len() > 0
                    && paragraph_sole_block_container(&child.children[0], frame).is_some() {
                    FlowRoute::SoleContainer
                } else {
                    FlowRoute::Paragraph { continues: !self.after_par && self.gathering }
                }
            },
            Kind::Tag => FlowRoute::Tag,
            Kind::VSpace => FlowRoute::VSpace,
            Kind::Equation { block } => if block {
                FlowRoute::Block
            } else {
                FlowRoute::Split { unreviewed: true }
            },
            Kind::Raw { block, .. } => if block {
                FlowRoute::Block
            } else {
                FlowRoute::Split { unreviewed: true }
            },
            Kind::Box { .. } => if child.children.len() == 0 || body_inline_extractable(
                &child.children[0],
            ) {
                FlowRoute::Split { unreviewed: false }
            } else {
                FlowRoute::Block
            },
            _ => if is_inline(child) {
                FlowRoute::Inline
            } else {
                FlowRoute::Block
            },
        }
    }

    /// Puts the gathered paragraph among the blocks.
    pub fn flush(&mut self)
        requires
            old(self).wf(),
        ensures
            Self::flushed(*old(self), *final(self)),
            final(self).wf(),
    {
        if !self.gathering {
            self.props = None;
            return;
        }
        self.gathering = false;
        let mut content: Vec<ParaChild> = Vec::new();
        core::mem::swap(&mut self.pending, &mut content);
        let props: Option<ParaProps> = self.props.take();
        if self.blank {
            self.blank = false;
            return;
        }
        let props: ParaProps = match props {
            Some(p) => p,
            None => ParaProps::default(),
        };
        self.blocks.push(Block::Para(Para { props, content }));
        assert(self.blocks@.drop_last() =~= old(self).blocks@);
    }

    fn settle(&mut self)
        requires
            old(self).wf(),
        ensures
            Self::settled(*old(self), *final(self)),
            final(self).wf(),
    {
        let from: usize = self.blocks.len();
        let space: i32 = self.space;
        self.flush();
        let ghost mid = *self;
        self.space = apply_pending_v(&mut self.blocks, from, space);
        assert(Self::flushed(*old(self), mid));
    }

    /// Takes up a paragraph break.
    pub fn parbreak(&mut self)
        requires
            old(self).wf(),
        ensures
            Self::settled(*old(self), (Self { after_par: old(self).after_par, ..*final(self) })),
            !final(self).after_par,
            final(self).wf(),
    {
        self.settle();
        self.after_par = false;
    }

    /// Takes up vertical space; fractional space, without an amount, says
    /// nothing.
    pub fn vspace(&mut self, amount: Option<i64>)
        requires
            old(self).wf(),
        ensures
            exists|mid: Self|
                {
                    &&& #[trigger] Self::settled(*old(self), mid)
                    &&& final(self).space == (match amount {
                        Some(length) => {
                            let sum = sat32(mid.space + twips(length as int));
                            if sum < 0 {
                                0
                            } else {
                                sum
                            }
                        },
                        None => mid.space,
                    })
                    &&& *final(self) == (Self {
                        space: final(self).space,
                        after_par: false,
                        ..mid
                    })
                },
            final(self).wf(),
    {
        self.settle();
        let ghost mid = *self;
        if let Some(length) = amount {
            let sum: i32 = add_sat(self.space, abs_to_twip(length));
            self.space = if sum < 0 {
                0
            } else {
                sum
            };
        }
        self.after_par = false;
        assert(Self::settled(*old(self), mid));
    }

    /// Starts a block that ends the paragraph being gathered. Returns where its
    /// blocks begin, for [`Assembler::end_block`].
    pub fn start_block(&mut self) -> (from: usize)
        requires
            old(self).wf(),
        ensures
            from == old(self).blocks@.len(),
            Self::flushed(*old(self), *final(self)),
            final(self).wf(),
    {
        let from: usize = self.blocks.len();
        self.flush();
        from
    }

    /// Ends a block: waiting space applies from where it began.
    pub fn end_block(&mut self, from: usize)
        requires
            old(self).wf(),
        ensures
            (final(self).blocks@, final(self).space) == space_applied(
                old(self).blocks@,
                from as int,
                old(self).space,
            ),
            *final(self) == (Self {
                blocks: final(self).blocks,
                space: final(self).space,
                after_par: false,
                ..*old(self)
            }),
            final(self).wf(),
    {
        self.space = apply_pending_v(&mut self.blocks, from, self.space);
        self.after_par = false;
    }
}

/// Whether paragraph formatting is that of a new paragraph in the given style: a
/// paragraph that follows another one is indented unless it is already.
pub open spec fn is_new_par(
    props: ParaProps,
    style: ParStyle,
    numbered_lines: bool,
    origin: ReviewOrigin,
    follows: bool,
) -> bool {
    let amount = twips(style.first_line_indent as int);
    let plain = ParaProps {
        review_origin: None,
        ind: if follows && !style.indent_all && amount != 0 {
            match props.ind {
                Some(ind) => if ind.hanging is None {
                    None
                } else {
                    Some(Indent { first_line: None, ..ind })
                },
                None => None,
            }
        } else {
            props.ind
        },
        ..props
    };
    &&& props.review_origin == Some(origin)
    &&& is_par_formatting(plain, style, numbered_lines)
    &&& follows && !style.indent_all && amount != 0 ==> props.ind is Some && (props.ind->0).left
        is None && (props.ind->0).right is None && (props.ind->0).first_line == Some(amount)
}

/// Whether `out` is `children` behind `markers`, all of it between the two marks
/// of a bookmark where there is one, behind `before`.
pub open spec fn is_gathered(
    before: Seq<ParaChild>,
    markers: Seq<ParaChild>,
    children: Seq<ParaChild>,
    mark: Option<(u32, Seq<char>)>,
    out: Seq<ParaChild>,
) -> bool {
    match mark {
        None => out == before + markers + children,
        Some((id, name)) => {
            let start = before.len() as int;
            &&& out.len() == before.len() + markers.len() + children.len() + 2
            &&& out.take(start) == before
            &&& match out[start] {
                ParaChild::BookmarkStart { id: i, name: n } => i == id && n@ == name,
                _ => false,
            }
            &&& out.subrange(start + 1, out.len() - 1) == markers + children
            &&& out.last() == (ParaChild::BookmarkEnd { id })
        },
    }
}

/// A review origin of the next identity.
pub open spec fn next_origin(ctx: DocxCtx, span: Span, kind: ReviewCandidateKind) -> ReviewOrigin {
    ReviewOrigin { join_id: ReviewJoinId(ctx.next_review_join_id), span, kind }
}

/// Whether `after` is `before` with one review identity handed out.
pub open spec fn origin_taken(before: DocxCtx, after: DocxCtx) -> bool {
    after == (DocxCtx {
        next_review_join_id: if before.next_review_join_id < u64::MAX {
            (before.next_review_join_id + 1) as u64
        } else {
            u64::MAX
        },
        ..before
    })
}

impl Assembler {
    /// Starts a paragraph that does not continue the one being gathered.
    pub fn start_paragraph(&mut self, ctx: &mut DocxCtx, style: &ParStyle, span: Span)
        requires
            old(self).wf(),
        ensures
            final(self).wf(),
            origin_taken(*old(ctx), *final(ctx)),
            exists|mid: Self|
                {
                    &&& #[trigger] Self::settled(*old(self), mid)
                    &&& final(self).props is Some
                    &&& is_new_par(
                        final(self).props->0,
                        *style,
                        old(ctx).line_numbering_active,
                        next_origin(*old(ctx), span, ReviewCandidateKind::Paragraph),
                        mid.blocks@.len() > 0 && mid.blocks@.last() is Para,
                    )
                    &&& *final(self) == (Self { props: final(self).props, ..mid })
                },
    {
        self.settle();
        let ghost mid = *self;
        let n: usize = self.blocks.len();
        let follows: bool = n > 0 && match &self.blocks[n - 1] {
            Block::Para(_) => true,
            _ => false,
        };
        let mut props: ParaProps = ctx.resolve_par_props(style);
        props.review_origin = Some(ctx.review_origin(span, ReviewCandidateKind::Paragraph));
        let indented: bool = match props.ind {
            Some(ind) => ind.first_line.is_some(),
            None => false,
        };
        if follows && !indented {
            if let Some(amount) = consecutive_first_line_indent(style) {
                let mut ind: Indent = match props.ind {
                    Some(i) => i,
                    None => Indent::default(),
                };
                ind.first_line = Some(amount);
                props.ind = Some(ind);
            }
        }
        self.props = Some(props);
        assert(Self::settled(*old(self), mid));
    }

    /// Adds the children of a paragraph. Waiting page anchors go in front of
    /// them, and a labelled paragraph becomes a link target.
    pub fn finish_paragraph(
        &mut self,
        ctx: &mut DocxCtx,
        children: Vec<ParaChild>,
        label: Option<Location>,
    )
        requires
            label matches Some(loc) ==> old(ctx).can_emit(loc),
            old(ctx).bookmarks_distinct(),
        ensures
            final(self).wf(),
            final(ctx).bookmarks_distinct(),
            exists|mark: Option<(u32, Seq<char>)>|
                {
                    &&& #[trigger] is_gathered(
                        old(self).pending@,
                        old(self).markers@,
                        children@,
                        mark,
                        final(self).pending@,
                    )
                    &&& match label {
                        None => mark is None && *final(ctx) == *old(ctx),
                        Some(loc) => {
                            &&& mark is Some == !old(ctx).emitted_bookmarks@.contains(loc.0)
                            &&& final(ctx).emitted_bookmarks@ == old(
                                ctx,
                            ).emitted_bookmarks@.insert(loc.0)
                            &&& mark is None ==> *final(ctx) == (DocxCtx {
                                emitted_bookmarks: final(ctx).emitted_bookmarks,
                                ..*old(ctx)
                            })
                            &&& mark is Some ==> bookmarked(
                                (DocxCtx {
                                    emitted_bookmarks: final(ctx).emitted_bookmarks,
                                    ..*old(ctx)
                                }),
                                *final(ctx),
                                loc,
                                (mark->0).0,
                                (mark->0).1,
                            )
                        },
                    }
                },
            *final(self) == (Self {
                pending: final(self).pending,
                markers: final(self).markers,
                gathering: true,
                after_par: true,
                blank: false,
                ..*old(self)
            }),
            final(self).markers@.len() == 0,
    {
        let ghost before = self.pending@;
        let ghost markers = self.markers@;
        let start: usize = self.pending.len();
        self.pending.append(&mut self.markers);
        let mut children: Vec<ParaChild> = children;
        let ghost kids = children@;
        self.pending.append(&mut children);
        assert(self.pending@ =~= before + markers + kids);
        let ghost mut mark: Option<(u32, Seq<char>)> = None;
        if let Some(loc) = label {
            if let Some((id, name)) = ctx.bookmark_for_emission(loc) {
                let ghost text = name@;
                let ghost plain = self.pending@;
                self.pending.insert(start, ParaChild::BookmarkStart { id, name });
                self.pending.push(ParaChild::BookmarkEnd { id });
                proof {
                    mark = Some((id, text));
                    let out = self.pending@;
                    assert(out.take(start as int) =~= before);
                    assert(out.subrange(start + 1, out.len() - 1) =~= markers + kids);
                }
            }
        }
        assert(is_gathered(before, markers, kids, mark, self.pending@));
        self.blank = false;
        self.gathering = true;
        self.after_par = true;
    }

    /// Takes up a tag. `anchor` is the located element that it starts and its
    /// source page; the first one of a page becomes the page's link target.
    pub fn tag(&mut self, ctx: &mut DocxCtx, tag: Tag, anchor: Option<(Location, usize)>)
        requires
            old(self).wf(),
            anchor matches Some((_, page)) ==> old(ctx).can_mark_page(page),
            old(ctx).bookmarks_distinct(),
        ensures
            final(self).wf(),
            final(ctx).bookmarks_distinct(),
            ({
                let fresh = match anchor {
                    Some((_, page)) => !old(ctx).page_bookmarks@.contains_key(page as u128),
                    None => false,
                };
                let was = if old(self).gathering {
                    old(self).pending@
                } else {
                    old(self).markers@
                };
                let now = if old(self).gathering {
                    final(self).pending@
                } else {
                    final(self).markers@
                };
                let tags: Seq<ParaChild> = if old(self).gathering {
                    seq![ParaChild::Tag(tag)]
                } else {
                    seq![]
                };
                &&& !fresh ==> *final(ctx) == *old(ctx) && now == was + tags
                &&& fresh ==> {
                    let n = was.len() as int;
                    &&& now.len() == n + 2 + tags.len()
                    &&& now.take(n) == was
                    &&& is_page_anchor(
                        now[n],
                        old(ctx).next_bookmark_id,
                        (anchor->0).1,
                    )
                    &&& now[n + 1] == (ParaChild::BookmarkEnd { id: old(ctx).next_bookmark_id })
                    &&& page_marked(
                        *old(ctx),
                        *final(ctx),
                        (anchor->0).0,
                        (anchor->0).1,
                        old(ctx).next_bookmark_id,
                        "_TypstPage"@ + dec((anchor->0).1 as int),
                    )
                    &&& now.skip(n + 2) == tags
                }
            }),
            if old(self).gathering {
                *final(self) == (Self { pending: final(self).pending, ..*old(self) })
            } else {
                &&& final(self).blocks@ == old(self).blocks@.push(Block::Tag(tag))
                &&& *final(self) == (Self {
                    markers: final(self).markers,
                    blocks: final(self).blocks,
                    ..*old(self)
                })
            },
    {
        let ghost was = if self.gathering {
            self.pending@
        } else {
            self.markers@
        };
        if let Some((loc, page)) = anchor {
            if let Some((id, name)) = ctx.page_bookmark_for_emission(loc, page) {
                if self.gathering {
                    self.pending.push(ParaChild::BookmarkStart { id, name });
                    self.pending.push(ParaChild::BookmarkEnd { id });
                } else {
                    self.markers.push(ParaChild::BookmarkStart { id, name });
                    self.markers.push(ParaChild::BookmarkEnd { id });
                }
            }
        }
        if self.gathering {
            self.pending.push(ParaChild::Tag(tag));
            assert(self.pending@.take(was.len() as int) =~= was);
            assert(self.pending@.len() == was.len() + 3 ==> self.pending@.skip((was.len() + 2) as int)
                =~= seq![ParaChild::Tag(tag)]);
            assert(self.pending@.len() == was.len() + 1 ==> self.pending@ =~= was + seq![
                ParaChild::Tag(tag),
            ]);
        } else {
            self.blocks.push(Block::Tag(tag));
            assert(self.markers@.take(was.len() as int) =~= was);
            assert(self.markers@.len() == was.len() + 2 ==> self.markers@.skip((was.len() + 2) as int)
                =~= Seq::<ParaChild>::empty());
            assert(self.markers@.len() == was.len() ==> self.markers@ =~= was + Seq::<
                ParaChild,
            >::empty());
        }
    }

    /// Adds inline content that split a paragraph to the paragraph being
    /// gathered.
    pub fn split(&mut self, children: Vec<ParaChild>, unreviewed: bool)
        ensures
            final(self).wf(),
            final(self).pending@ == old(self).pending@ + children@,
            final(self).props == (match old(self).props {
                Some(props) => Some(
                    if unreviewed {
                        ParaProps { review_origin: None, ..props }
                    } else {
                        props
                    },
                ),
                None => None,
            }),
            *final(self) == (Self {
                pending: final(self).pending,
                props: final(self).props,
                gathering: true,
                after_par: false,
                blank: false,
                ..*old(self)
            }),
    {
        let mut children: Vec<ParaChild> = children;
        self.pending.append(&mut children);
        if unreviewed {
            if let Some(props) = &mut self.props {
                props.review_origin = None;
            }
        }
        self.blank = false;
        self.gathering = true;
        self.after_par = false;
    }

    /// Starts inline content: outside a paragraph it begins one. Until anything
    /// else follows, a space alone does not make a paragraph.
    pub fn start_inline(&mut self, ctx: &mut DocxCtx, space: bool, span: Span)
        requires
            old(self).wf(),
        ensures
            final(self).wf(),
            if !old(self).gathering {
                &&& origin_taken(*old(ctx), *final(ctx))
                &&& final(self).props matches Some(props) && props.review_origin == Some(
                    next_origin(*old(ctx), span, ReviewCandidateKind::Paragraph),
                ) && (ParaProps { review_origin: None, ..props }).is_default()
                &&& *final(self) == (Self { props: final(self).props, blank: space, ..*old(self) })
            } else {
                &&& *final(ctx) == *old(ctx)
                &&& *final(self) == (Self { blank: old(self).blank && space, ..*old(self) })
            },
    {
        if !self.gathering {
            self.blank = space;
            let mut props: ParaProps = ParaProps::default();
            props.review_origin = Some(ctx.review_origin(span, ReviewCandidateKind::Paragraph));
            self.props = Some(props);
        } else if !space {
            self.blank = false;
        }
    }

    /// Adds inline content to the paragraph being gathered.
    pub fn end_inline(&mut self, children: Vec<ParaChild>)
        ensures
            final(self).wf(),
            final(self).pending@ == old(self).pending@ + children@,
            *final(self) == (Self {
                pending: final(self).pending,
                gathering: true,
                after_par: false,
                ..*old(self)
            }),
    {
        let mut children: Vec<ParaChild> = children;
        self.pending.append(&mut children);
        self.gathering = true;
        self.after_par = false;
    }
}

/// Whether a child starts the bookmark of a source page.
pub open spec fn is_page_anchor(child: ParaChild, id: u32, page: usize) -> bool {
    match child {
        ParaChild::BookmarkStart { id: i, name } => i == id && name@ == "_TypstPage"@ + dec(
            page as int,
        ),
        _ => false,
    }
}

} // verus!
