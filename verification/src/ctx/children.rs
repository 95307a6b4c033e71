//! The lowering of a paragraph's content to paragraph children.

use vstd::prelude::*;

use crate::content::{Class, Content, Kind, body, holds_class};
use crate::convert::blocks::{push_runs, run_children};
use crate::convert::predicates::{
    body_extractable, contains_place, contains_visible_text, extractable,
};
use crate::ctx::bookmarks::{bookmarked, lemma_same_bookmarks};
use crate::ctx::inline::{
    InlineFrame, LinkKind, is_live_field, live_field, page_instruction, referenced,
};
use crate::ctx::scope::{active_table, only_active_table_differs};
use crate::ctx::state::{DocxCtx, REL_HYPERLINK};
use crate::dom::{Field, Location, ParaChild, Run, Span, Tag};
use crate::props::run_items;
use crate::rels::{RelMode, RelSpec, rel_id, rel_index, with_rel};
use crate::text::{opt_str, opt_str_eq};

verus! {

/// How a child of a paragraph is lowered.
#[derive(Debug, Copy, Clone, PartialEq, Eq, Structural)]
pub enum ChildRoute {
    /// A tag, or the marks of a comment.
    Tag,
    Link,
    DirectLink,
    /// The body with the container's shading and border on every run.
    Framed,
    /// Content that carries a link.
    Linked,
    /// Placed content as an image that keeps its tags in place.
    Placed,
    Inline,
}

/// How a child of a paragraph is lowered.
pub open spec fn child_route(c: Content, frame: InlineFrame, linked: bool) -> ChildRoute {
    match c.kind {
        Kind::Tag => ChildRoute::Tag,
        Kind::Link => ChildRoute::Link,
        Kind::DirectLink => ChildRoute::DirectLink,
        _ => if frame.painted && body(c) is Some && extractable(body(c)->0) {
            ChildRoute::Framed
        } else if linked {
            ChildRoute::Linked
        } else if c.kind is Place || (c.kind is Box && c.kind->Box_plain && holds_class(
            c,
            Class::Place,
        ) && !holds_class(c, Class::VisibleText)) {
            ChildRoute::Placed
        } else {
            ChildRoute::Inline
        },
    }
}

/// Decides how a child of a paragraph is lowered. `linked` says that it carries
/// the link of an element around it.
pub fn route_child(c: &Content, frame: InlineFrame, linked: bool) -> (r: ChildRoute)
    ensures
        r == child_route(*c, frame, linked),
{
    match c.kind {
        Kind::Tag => ChildRoute::Tag,
        Kind::Link => ChildRoute::Link,
        Kind::DirectLink => ChildRoute::DirectLink,
        _ => {
            if frame.painted && c.children.len() > 0 && body_extractable(&c.children[0]) {
                ChildRoute::Framed
            } else if linked {
                ChildRoute::Linked
            } else if matches!(c.kind, Kind::Place { .. }) || (matches!(
                c.kind,
                Kind::Box { plain: true, .. }
            ) && contains_place(c) && !contains_visible_text(c)) {
                ChildRoute::Placed
            } else {
                ChildRoute::Inline
            }
        },
    }
}

/// The field of a page reference that further parts of the reference join.
#[derive(Debug, Copy, Clone, PartialEq, Eq, Structural)]
pub struct PageField {
    pub span: Span,
    pub loc: Location,
    pub index: usize,
}

/// Where a link leads.
#[derive(Debug)]
pub enum Destination {
    Location(Location),
    Url(String),
    /// A place on a source page.
    Page(usize),
}

/// The children of a paragraph under construction.
pub struct Children {
    pub out: Vec<ParaChild>,
    pub page_field: Option<PageField>,
}

/// Whether the field of a page reference goes on: it has the same source and
/// target and is still where it was put.
pub open spec fn continues_field(
    out: Seq<ParaChild>,
    field: Option<PageField>,
    span: Span,
    loc: Location,
) -> bool {
    match field {
        Some(f) => f.span == span && f.loc == loc && f.index < out.len()
            && out[f.index as int] matches ParaChild::Run(Run::Field(_)),
        None => false,
    }
}

/// The field of a page reference after `n` children were put in front of those from
/// `start` on; `len` is how many children there were.
pub open spec fn moved_field(field: Option<PageField>, start: int, len: int, n: int) -> Option<
    PageField,
> {
    match field {
        Some(f) => if start <= f.index < len {
            Some(PageField { index: (f.index + n) as usize, ..f })
        } else {
            field
        },
        None => None,
    }
}

/// Whether `after` is `before` with runs added to the result of the field at
/// `at`.
pub open spec fn field_extended(
    before: Seq<ParaChild>,
    after: Seq<ParaChild>,
    at: int,
    runs: Seq<Run>,
) -> bool {
    &&& after.len() == before.len()
    &&& forall|i: int| 0 <= i < before.len() && i != at ==> #[trigger] after[i] == before[i]
    &&& match (before[at], after[at]) {
        (ParaChild::Run(Run::Field(f)), ParaChild::Run(Run::Field(g))) => {
            &&& g.result@ == f.result@ + runs
            &&& g == (Field { result: g.result, ..f })
        },
        _ => false,
    }
}

impl Children {
    /// No children yet.
    pub fn new() -> (r: Self)
        ensures
            r.out@.len() == 0,
            r.page_field is None,
    {
        Children { out: Vec::new(), page_field: None }
    }

    /// Adds children as they are.
    pub fn extend(&mut self, children: Vec<ParaChild>)
        ensures
            final(self).out@ == old(self).out@ + children@,
            final(self).page_field == old(self).page_field,
    {
        let mut children: Vec<ParaChild> = children;
        self.out.append(&mut children);
    }

    /// Adds a tag.
    pub fn tag(&mut self, tag: Tag)
        ensures
            final(self).out@ == old(self).out@.push(ParaChild::Tag(tag)),
            final(self).page_field == old(self).page_field,
    {
        self.out.push(ParaChild::Tag(tag));
    }

    /// Adds runs.
    pub fn runs(&mut self, runs: Vec<Run>)
        ensures
            final(self).out@ == old(self).out@ + run_children(runs@),
            final(self).page_field == old(self).page_field,
    {
        push_runs(runs, &mut self.out);
    }

    /// Adds placed content: its tags, then its runs.
    pub fn placed(&mut self, tags: &Vec<Tag>, runs: Vec<Run>)
        ensures
            final(self).out@ == old(self).out@ + tag_children(tags@) + run_children(runs@),
            final(self).page_field == old(self).page_field,
    {
        push_tags(tags, &mut self.out);
        push_runs(runs, &mut self.out);
    }

    /// Adds a link to a located element whose bookmark is `name`.
    pub fn direct_link(
        &mut self,
        ctx: &mut DocxCtx,
        kind: LinkKind,
        loc: Location,
        name: String,
        runs: Vec<Run>,
    )
        requires
            kind == LinkKind::Reference ==> old(ctx).can_refer(loc, runs@),
            old(ctx).bookmarks_distinct(),
        ensures
            final(ctx).bookmarks_distinct(),
            final(self).page_field == old(self).page_field,
            final(self).out@.len() >= old(self).out@.len(),
            final(self).out@.take(old(self).out@.len() as int) == old(self).out@,
            linked_to(
                *old(ctx),
                *final(ctx),
                kind,
                loc,
                name@,
                runs@,
                final(self).out@.skip(old(self).out@.len() as int),
            ),
    {
        let ghost before = self.out@;
        push_link(ctx, kind, loc, name, runs, &mut self.out);
        assert(self.out@.take(before.len() as int) =~= before);
    }

    /// Adds content that carries a link. A page reference that realizes in
    /// several parts is one field.
    pub fn linked(
        &mut self,
        ctx: &mut DocxCtx,
        dest: &Destination,
        kind: LinkKind,
        span: Span,
        own: Option<Location>,
        runs: Vec<Run>,
    )
        requires
            match *dest {
                Destination::Location(loc) => old(ctx).can_bookmark(loc) && (kind
                    == LinkKind::Reference ==> old(ctx).can_refer(loc, runs@)),
                Destination::Url(_) => active_table(*old(ctx)).len() < usize::MAX,
                Destination::Page(_) => true,
            },
            old(ctx).bookmarks_distinct(),
        ensures
            final(ctx).bookmarks_distinct(),
            match *dest {
                Destination::Location(loc) => exists|mid: DocxCtx, id: u32, name: Seq<char>|
                    {
                        &&& #[trigger] bookmarked(*old(ctx), mid, loc, id, name)
                        &&& if kind == LinkKind::Page && continues_field(
                            old(self).out@,
                            old(self).page_field,
                            span,
                            loc,
                        ) {
                            &&& *final(ctx) == mid
                            &&& final(self).page_field == old(self).page_field
                            &&& field_extended(
                                old(self).out@,
                                final(self).out@,
                                (old(self).page_field->0).index as int,
                                runs@,
                            )
                        } else {
                            &&& final(self).out@.len() >= old(self).out@.len()
                            &&& final(self).out@.take(old(self).out@.len() as int)
                                == old(self).out@
                            &&& linked_to(
                                mid,
                                *final(ctx),
                                kind,
                                loc,
                                name,
                                runs@,
                                final(self).out@.skip(old(self).out@.len() as int),
                            )
                            &&& final(self).page_field == (if kind == LinkKind::Page {
                                Some(
                                    PageField { span, loc, index: old(self).out@.len() as usize },
                                )
                            } else {
                                old(self).page_field
                            })
                        }
                    },
                Destination::Url(url) => {
                    let rel = RelSpec {
                        ty: REL_HYPERLINK@,
                        target: url@,
                        mode: RelMode::External,
                    };
                    &&& final(self).page_field == old(self).page_field
                    &&& active_table(*final(ctx)) == with_rel(active_table(*old(ctx)), rel)
                    &&& only_active_table_differs(*old(ctx), *final(ctx))
                    &&& final(self).out@.len() == old(self).out@.len() + 1
                    &&& final(self).out@.drop_last() == old(self).out@
                    &&& match final(self).out@.last() {
                        ParaChild::Hyperlink { rel: r, anchor, runs: rs } => {
                            &&& opt_str(r) == Some(
                                rel_id(rel_index(active_table(*old(ctx)), rel, 0)),
                            )
                            &&& anchor is None
                            &&& rs == runs
                        },
                        _ => false,
                    }
                },
                Destination::Page(page) => {
                    let target = old(ctx).page_bookmarks@.contains_key(page as u128) && Some(
                        old(ctx).page_bookmarks@[page as u128].1,
                    ) != own;
                    &&& *final(ctx) == *old(ctx)
                    &&& final(self).page_field == old(self).page_field
                    &&& if target {
                        &&& final(self).out@.len() == old(self).out@.len() + 1
                        &&& final(self).out@.drop_last() == old(self).out@
                        &&& match final(self).out@.last() {
                            ParaChild::Hyperlink { rel, anchor, runs: rs } => {
                                &&& rel is None
                                &&& opt_str(anchor) == Some(
                                    old(ctx).page_bookmarks@[page as u128].0@,
                                )
                                &&& rs == runs
                            },
                            _ => false,
                        }
                    } else {
                        final(self).out@ == old(self).out@ + run_children(runs@)
                    }
                },
            },
    {
        let ghost before = self.out@;
        match dest {
            Destination::Location(loc) => {
                let (id, name) = ctx.add_bookmark(*loc);
                let ghost mid = *ctx;
                assert(bookmarked(*old(ctx), mid, *loc, id, name@));
                if kind == LinkKind::Page {
                    if let Some(field) = self.page_field {
                        if field.span == span && field.loc == *loc && field.index
                            < self.out.len() {
                            let is_field: bool = match &self.out[field.index] {
                                ParaChild::Run(Run::Field(_)) => true,
                                _ => false,
                            };
                            if is_field {
                                extend_field(&mut self.out, field.index, runs);
                                return;
                            }
                        }
                    }
                    let index: usize = self.out.len();
                    self.page_field = Some(PageField { span, loc: *loc, index });
                }
                push_link(ctx, kind, *loc, name, runs, &mut self.out);
                assert(self.out@.take(before.len() as int) =~= before);
            },
            Destination::Url(url) => {
                let rel: String = ctx.add_external_rel(url.as_str());
                proof {
                    lemma_same_bookmarks(*old(ctx), *ctx);
                }
                self.out.push(ParaChild::Hyperlink { rel: Some(rel), anchor: None, runs });
                assert(self.out@.drop_last() =~= before);
            },
            Destination::Page(page) => {
                match ctx.page_bookmark(*page, own) {
                    Some(anchor) => {
                        self.out.push(
                            ParaChild::Hyperlink { rel: None, anchor: Some(anchor), runs },
                        );
                        assert(self.out@.drop_last() =~= before);
                    },
                    None => push_runs(runs, &mut self.out),
                }
            },
        }
    }

    /// Ends a child: the tags that its lowering put aside return to its place,
    /// and a labelled child that shows becomes a link target. The field of a page
    /// reference that this moves is still known, so that further parts of the
    /// reference join it. `start` is where its output begins, `tags` how many tags
    /// were aside before.
    pub fn end_child(
        &mut self,
        ctx: &mut DocxCtx,
        start: usize,
        tags: usize,
        label: Option<Location>,
    )
        requires
            start <= old(self).out@.len(),
            tags <= old(ctx).deferred_tags@.len(),
            label matches Some(loc) ==> old(ctx).can_emit(loc),
            old(ctx).bookmarks_distinct(),
        ensures
            final(ctx).bookmarks_distinct(),
            final(ctx).deferred_tags@ == old(ctx).deferred_tags@.take(tags as int),
            old(self).page_field matches Some(f) ==> f.index < old(self).out@.len() ==> {
                &&& final(self).page_field matches Some(g) && g.span == f.span && g.loc == f.loc
                    && g.index < final(self).out@.len() && final(self).out@[g.index as int]
                    == old(self).out@[f.index as int]
            },
            ({
                let own = old(self).out@.skip(start as int);
                let lead = old(self).out@.take(start as int) + tag_children(
                    old(ctx).deferred_tags@.skip(tags as int),
                );
                let fresh = label is Some && own.len() > 0 && !old(ctx).emitted_bookmarks@.contains(
                    (label->0).0,
                );
                &&& final(self).page_field == moved_field(
                    old(self).page_field,
                    start as int,
                    old(self).out@.len() as int,
                    old(ctx).deferred_tags@.len() - tags + if fresh {
                        1int
                    } else {
                        0
                    },
                )
                &&& if fresh {
                    &&& final(ctx).emitted_bookmarks@ == old(ctx).emitted_bookmarks@.insert(
                        (label->0).0,
                    )
                    &&& exists|id: u32, name: Seq<char>|
                        {
                            &&& bookmarked(
                                (DocxCtx {
                                    deferred_tags: final(ctx).deferred_tags,
                                    emitted_bookmarks: final(ctx).emitted_bookmarks,
                                    ..*old(ctx)
                                }),
                                *final(ctx),
                                label->0,
                                id,
                                name,
                            )
                            &&& #[trigger] is_marked(lead, own, id, name, final(self).out@)
                        }
                } else {
                    &&& final(self).out@ == lead + own
                    &&& final(ctx).emitted_bookmarks@ == old(ctx).emitted_bookmarks@
                    &&& *final(ctx) == (DocxCtx {
                        deferred_tags: final(ctx).deferred_tags,
                        emitted_bookmarks: final(ctx).emitted_bookmarks,
                        ..*old(ctx)
                    })
                }
            }),
    {
        let local: Vec<Tag> = ctx.deferred_tags.split_off(tags);
        assert(local@ =~= old(ctx).deferred_tags@.skip(tags as int));
        proof {
            lemma_same_bookmarks(*old(ctx), *ctx);
        }
        let ghost all = self.out@;
        let ghost before = self.page_field;
        let len: usize = self.out.len();
        let mut own: Vec<ParaChild> = self.out.split_off(start);
        let ghost kept = own@;
        push_tags(&local, &mut self.out);
        let ghost lead = self.out@;
        assert(lead.len() == start + local@.len());
        let shows: bool = own.len() > 0;
        if let Some(loc) = label {
            if shows {
                if let Some((id, name)) = ctx.bookmark_for_emission(loc) {
                    let ghost text = name@;
                    self.out.push(ParaChild::BookmarkStart { id, name });
                    let shift: usize = self.out.len() - start;
                    self.out.append(&mut own);
                    self.out.push(ParaChild::BookmarkEnd { id });
                    assert(self.out@.take(lead.len() as int) =~= lead);
                    assert(self.out@.subrange((lead.len() + 1) as int, self.out@.len() - 1) =~= kept);
                    assert(is_marked(lead, kept, id, text, self.out@));
                    assert(self.out@.take(start as int) =~= all.take(start as int));
                    assert(self.out@.subrange(start + shift, len + shift) =~= all.skip(start as int));
                    self.move_field(start, len, shift);
                    proof {
                        if let Some(f) = before {
                            if f.index < len {
                                lemma_moved(all, start as int, self.out@, shift as int, f.index as int);
                            }
                        }
                    }
                    return;
                }
            }
        }
        let shift: usize = self.out.len() - start;
        self.out.append(&mut own);
        assert(self.out@.take(start as int) =~= all.take(start as int));
        assert(self.out@.subrange(start + shift, len + shift) =~= all.skip(start as int));
        self.move_field(start, len, shift);
        proof {
            if let Some(f) = before {
                if f.index < len {
                    lemma_moved(all, start as int, self.out@, shift as int, f.index as int);
                }
            }
        }
    }

    fn move_field(&mut self, start: usize, len: usize, n: usize)
        requires
            len + n <= old(self).out@.len(),
        ensures
            len + n <= usize::MAX,
            final(self).out == old(self).out,
            final(self).page_field == moved_field(
                old(self).page_field,
                start as int,
                len as int,
                n as int,
            ),
    {
        let room: usize = self.out.len();
        assert(len + n <= room);
        if let Some(field) = self.page_field {
            if start <= field.index && field.index < len {
                self.page_field = Some(
                    PageField { span: field.span, loc: field.loc, index: field.index + n },
                );
            }
        }
    }
}

proof fn lemma_moved(before: Seq<ParaChild>, start: int, after: Seq<ParaChild>, n: int, i: int)
    requires
        0 <= start <= before.len(),
        0 <= n,
        before.len() + n <= after.len(),
        after.take(start) == before.take(start),
        after.subrange(start + n, before.len() + n) == before.skip(start),
        0 <= i < before.len(),
    ensures
        after[if i < start {
            i
        } else {
            i + n
        }] == before[i],
{
    if i < start {
        assert(after[i] == after.take(start)[i]);
        assert(before[i] == before.take(start)[i]);
    } else {
        let k = i - start;
        assert(after[i + n] == after.subrange(start + n, before.len() + n)[k]);
        assert(before[i] == before.skip(start)[k]);
    }
}

/// Tags as paragraph children.
pub open spec fn tag_children(tags: Seq<Tag>) -> Seq<ParaChild> {
    tags.map_values(|t: Tag| ParaChild::Tag(t))
}

fn push_tags(tags: &Vec<Tag>, out: &mut Vec<ParaChild>)
    ensures
        final(out)@ == old(out)@ + tag_children(tags@),
{
    let ghost before = out@;
    let mut i: usize = 0;
    assert(before + tag_children(tags@.take(0)) =~= before);
    while i < tags.len()
        invariant
            i <= tags@.len(),
            out@ == before + tag_children(tags@.take(i as int)),
        decreases tags@.len() - i,
    {
        out.push(ParaChild::Tag(tags[i]));
        assert(tag_children(tags@.take(i + 1)) =~= tag_children(tags@.take(i as int)).push(
            ParaChild::Tag(tags@[i as int]),
        ));
        i = i + 1;
        assert(out@ =~= before + tag_children(tags@.take(i as int)));
    }
    assert(tags@.take(i as int) =~= tags@);
}

/// Whether `out` is `own` between the two marks of a bookmark, behind `lead`.
pub open spec fn is_marked(
    lead: Seq<ParaChild>,
    own: Seq<ParaChild>,
    id: u32,
    name: Seq<char>,
    out: Seq<ParaChild>,
) -> bool {
    &&& out.len() == lead.len() + own.len() + 2
    &&& out.take(lead.len() as int) == lead
    &&& match out[lead.len() as int] {
        ParaChild::BookmarkStart { id: i, name: n } => i == id && n@ == name,
        _ => false,
    }
    &&& out.subrange((lead.len() + 1) as int, out.len() - 1) == own
    &&& out.last() == (ParaChild::BookmarkEnd { id })
}

/// Whether `added` is the link to a located element whose bookmark is `name`.
pub open spec fn linked_to(
    before: DocxCtx,
    after: DocxCtx,
    kind: LinkKind,
    loc: Location,
    name: Seq<char>,
    runs: Seq<Run>,
    added: Seq<ParaChild>,
) -> bool {
    match kind {
        LinkKind::Page => {
            &&& after == before
            &&& added.len() == 1
            &&& match added[0] {
                ParaChild::Run(run) => is_live_field(
                    run,
                    " PAGEREF "@ + name + " \\h "@,
                    run_items(runs),
                ),
                _ => false,
            }
        },
        LinkKind::Reference => exists|made: Seq<Run>|
            {
                &&& #[trigger] referenced(before, after, loc, runs, made)
                &&& added == run_children(made)
            },
        LinkKind::Plain => {
            &&& after == before
            &&& added.len() == 1
            &&& match added[0] {
                ParaChild::Hyperlink { rel, anchor, runs: rs } => {
                    &&& rel is None
                    &&& opt_str(anchor) == Some(name)
                    &&& rs@ == runs
                },
                _ => false,
            }
        },
    }
}

fn push_link(
    ctx: &mut DocxCtx,
    kind: LinkKind,
    loc: Location,
    name: String,
    runs: Vec<Run>,
    out: &mut Vec<ParaChild>,
)
    requires
        kind == LinkKind::Reference ==> old(ctx).can_refer(loc, runs@),
        old(ctx).bookmarks_distinct(),
    ensures
        final(ctx).bookmarks_distinct(),
        final(out)@.len() >= old(out)@.len(),
        final(out)@.take(old(out)@.len() as int) == old(out)@,
        linked_to(
            *old(ctx),
            *final(ctx),
            kind,
            loc,
            name@,
            runs@,
            final(out)@.skip(old(out)@.len() as int),
        ),
{
    let ghost before = out@;
    match kind {
        LinkKind::Page => {
            let instr: String = page_instruction(name.as_str());
            out.push(ParaChild::Run(live_field(instr, runs)));
        },
        LinkKind::Reference => {
            let made: Vec<Run> = ctx.live_number_reference_runs(loc, runs);
            let ghost list = made@;
            push_runs(made, out);
            assert(out@.skip(before.len() as int) =~= run_children(list));
            assert(referenced(*old(ctx), *ctx, loc, runs@, list));
        },
        LinkKind::Plain => {
            out.push(ParaChild::Hyperlink { rel: None, anchor: Some(name), runs });
        },
    }
    assert(out@.take(before.len() as int) =~= before);
}

fn extend_field(out: &mut Vec<ParaChild>, at: usize, runs: Vec<Run>)
    requires
        at < old(out)@.len(),
        old(out)@[at as int] matches ParaChild::Run(Run::Field(_)),
    ensures
        field_extended(old(out)@, final(out)@, at as int, runs@),
{
    let mut runs: Vec<Run> = runs;
    if let ParaChild::Run(Run::Field(field)) = &mut out[at] {
        field.result.append(&mut runs);
    }
}

/// A paragraph child with the contents of a hyperlink laid open.
pub enum ChildItem {
    Link { rel: Option<Seq<char>>, anchor: Option<Seq<char>>, runs: Seq<Run> },
    Other(ParaChild),
}

/// A paragraph child with the contents of a hyperlink laid open.
pub open spec fn child_item(child: ParaChild) -> ChildItem {
    match child {
        ParaChild::Hyperlink { rel, anchor, runs } => ChildItem::Link {
            rel: opt_str(rel),
            anchor: opt_str(anchor),
            runs: runs@,
        },
        _ => ChildItem::Other(child),
    }
}

/// Paragraph children with the contents of hyperlinks laid open.
pub open spec fn child_items(children: Seq<ParaChild>) -> Seq<ChildItem> {
    children.map_values(|c: ParaChild| child_item(c))
}

/// Whether two hyperlinks lead to the same place.
pub open spec fn same_target(a: ChildItem, b: ChildItem) -> bool {
    match (a, b) {
        (
            ChildItem::Link { rel: r, anchor: x, .. },
            ChildItem::Link { rel: s, anchor: y, .. },
        ) => r == s && x == y,
        _ => false,
    }
}

/// Children with one more: a hyperlink joins one before it that leads to the
/// same place.
pub open spec fn with_child(s: Seq<ChildItem>, c: ChildItem) -> Seq<ChildItem> {
    if s.len() > 0 && same_target(s.last(), c) {
        match (s.last(), c) {
            (
                ChildItem::Link { rel, anchor, runs },
                ChildItem::Link { runs: more, .. },
            ) => s.update(s.len() - 1, ChildItem::Link { rel, anchor, runs: runs + more }),
            _ => s,
        }
    } else {
        s.push(c)
    }
}

/// Children with adjacent hyperlinks to the same place joined.
pub open spec fn merged(s: Seq<ChildItem>) -> Seq<ChildItem>
    decreases s.len(),
{
    if s.len() == 0 {
        seq![]
    } else {
        with_child(merged(s.drop_last()), s.last())
    }
}

fn joins(last: &ParaChild, rel: &Option<String>, anchor: &Option<String>) -> (r: bool)
    ensures
        r == (match child_item(*last) {
            ChildItem::Link { rel: r, anchor: x, .. } => r == opt_str(*rel) && x == opt_str(
                *anchor,
            ),
            _ => false,
        }),
{
    match last {
        ParaChild::Hyperlink { rel: r, anchor: x, runs: _ } => opt_str_eq(r, rel) && opt_str_eq(
            x,
            anchor,
        ),
        _ => false,
    }
}

fn append_runs(link: &mut ParaChild, runs: Vec<Run>)
    ensures
        match child_item(*old(link)) {
            ChildItem::Link { rel, anchor, runs: rs } => child_item(*final(link))
                == (ChildItem::Link { rel, anchor, runs: rs + runs@ }),
            _ => *final(link) == *old(link),
        },
{
    if let ParaChild::Hyperlink { rel: _, anchor: _, runs: rs } = link {
        let mut runs: Vec<Run> = runs;
        rs.append(&mut runs);
    }
}

fn push_merged(out: &mut Vec<ParaChild>, child: ParaChild)
    ensures
        child_items(final(out)@) == with_child(child_items(old(out)@), child_item(child)),
{
    let ghost before = child_items(out@);
    let n: usize = out.len();
    match child {
        ParaChild::Hyperlink { rel, anchor, runs } => {
            if n > 0 {
                assert(before.last() == child_item(out@[n - 1]));
                if joins(&out[n - 1], &rel, &anchor) {
                    append_runs(&mut out[n - 1], runs);
                    assert(child_items(out@) =~= with_child(before, child_item(child)));
                    return;
                }
            }
            out.push(ParaChild::Hyperlink { rel, anchor, runs });
            assert(child_items(out@) =~= before.push(child_item(child)));
        },
        other => {
            out.push(other);
            assert(child_items(out@) =~= before.push(child_item(other)));
        },
    }
}

/// Joins adjacent hyperlinks that lead to the same place: a reference often
/// realizes in several parts.
pub fn merge_hyperlinks(children: Vec<ParaChild>) -> (r: Vec<ParaChild>)
    ensures
        child_items(r@) == merged(child_items(children@)),
{
    let ghost all = children@;
    let mut out: Vec<ParaChild> = Vec::new();
    assert(child_items(all.take(0)) =~= seq![]);
    assert(child_items(out@) =~= merged(child_items(all.take(0))));
    for child in it: children
        invariant
            it.seq() == all,
            child_items(out@) == merged(child_items(all.take(it.index() as int))),
    {
        let ghost i = it.index() as int;
        push_merged(&mut out, child);
        assert(child_items(all.take(i + 1)).drop_last() =~= child_items(all.take(i)));
        assert(child_items(all.take(i + 1)).last() == child_item(child));
    }
    assert(all.take(all.len() as int) =~= all);
    out
}

/// The runs inside children, and each child that is no hyperlink, in order.
pub open spec fn link_runs(s: Seq<ChildItem>) -> Seq<(Option<Run>, Option<ParaChild>)>
    decreases s.len(),
{
    if s.len() == 0 {
        seq![]
    } else {
        link_runs(s.drop_last()) + (match s.last() {
            ChildItem::Link { runs, .. } => runs.map_values(
                |r: Run| (Some(r), None::<ParaChild>),
            ),
            ChildItem::Other(child) => seq![(None::<Run>, Some(child))],
        })
    }
}

/// Joining hyperlinks keeps every run and every other child, in order, and
/// leaves no two adjacent hyperlinks that lead to the same place.
pub proof fn merging_keeps_runs(s: Seq<ChildItem>)
    ensures
        link_runs(merged(s)) == link_runs(s),
        forall|i: int|
            0 < i < merged(s).len() ==> !same_target(
                #[trigger] merged(s)[i - 1],
                merged(s)[i],
            ),
    decreases s.len(),
{
    if s.len() > 0 {
        let before = merged(s.drop_last());
        let c = s.last();
        merging_keeps_runs(s.drop_last());
        let after = with_child(before, c);
        if before.len() > 0 && same_target(before.last(), c) {
            assert(after.drop_last() =~= before.drop_last());
            let a = before.last()->runs;
            let b = c->runs;
            assert((a + b).map_values(|r: Run| (Some(r), None::<ParaChild>)) =~= a.map_values(
                |r: Run| (Some(r), None::<ParaChild>),
            ) + b.map_values(|r: Run| (Some(r), None::<ParaChild>)));
            assert(link_runs(before) == link_runs(before.drop_last()) + a.map_values(
                |r: Run| (Some(r), None::<ParaChild>),
            ));
            assert(link_runs(after) == link_runs(after.drop_last()) + (a + b).map_values(
                |r: Run| (Some(r), None::<ParaChild>),
            ));
            assert(link_runs(after) =~= link_runs(s));
            assert forall|i: int| 0 < i < after.len() implies !same_target(
                #[trigger] after[i - 1],
                after[i],
            ) by {
                assert(!same_target(before[i - 1], before[i]));
            }
        } else {
            assert(after.drop_last() =~= before);
            assert forall|i: int| 0 < i < after.len() implies !same_target(
                #[trigger] after[i - 1],
                after[i],
            ) by {
                if i < before.len() {
                    assert(!same_target(before[i - 1], before[i]));
                }
            }
        }
    }
}

} // verus!
