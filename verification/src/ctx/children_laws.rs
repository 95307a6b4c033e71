//! What links and bookmarks make of the children of a paragraph.

use vstd::prelude::*;

use crate::ctx::children::{
    PageField, child_item, continues_field, field_extended, is_marked, linked_to, moved_field,
    same_target, tag_children,
};
use crate::ctx::inline::{LinkKind, is_live_field};
use crate::ctx::state::DocxCtx;
use crate::dom::{Location, ParaChild, Run, Span, Tag};
use crate::props::{RunItem, run_items};

verus! {

/// A link to a page is a live field that refers to the page of its target's
/// bookmark and shows the runs; any other plain link leads to the bookmark around
/// the same runs.
pub proof fn links_lead_to_their_bookmark(
    before: DocxCtx,
    after: DocxCtx,
    kind: LinkKind,
    loc: Location,
    name: Seq<char>,
    runs: Seq<Run>,
    added: Seq<ParaChild>,
)
    requires
        linked_to(before, after, kind, loc, name, runs, added),
    ensures
        kind is Page ==> {
            &&& added.len() == 1
            &&& added[0] is Run
            &&& added[0]->Run_0 is Field
            &&& added[0]->Run_0->Field_0.instr@ == " PAGEREF "@ + name + " \\h "@
            &&& added[0]->Run_0->Field_0.mode is Live
            &&& added[0]->Run_0->Field_0.display is Visible
            &&& run_items(added[0]->Run_0->Field_0.result@) == run_items(runs)
        },
        kind is Plain ==> {
            &&& added.len() == 1
            &&& added[0] is Hyperlink
            &&& added[0]->rel is None
            &&& added[0]->anchor is Some
            &&& added[0]->anchor.unwrap()@ == name
            &&& added[0]->runs@ == runs
        },
{
}

/// A bookmark around children starts behind what leads them and ends behind them,
/// under one number; the children and what leads them stay.
pub proof fn bookmarks_stand_around_children(
    lead: Seq<ParaChild>,
    own: Seq<ParaChild>,
    id: u32,
    name: Seq<char>,
    out: Seq<ParaChild>,
)
    requires
        is_marked(lead, own, id, name, out),
    ensures
        out.len() == lead.len() + own.len() + 2,
        forall|i: int| #![trigger lead[i]] 0 <= i < lead.len() ==> out[i] == lead[i],
        out[lead.len() as int] is BookmarkStart,
        out[lead.len() as int]->BookmarkStart_id == id,
        out[lead.len() as int]->name@ == name,
        forall|i: int|
            #![trigger own[i]]
            0 <= i < own.len() ==> out[lead.len() + 1 + i] == own[i],
        out[out.len() - 1] is BookmarkEnd,
        out[out.len() - 1]->BookmarkEnd_id == id,
{
    assert forall|i: int| #![trigger lead[i]] 0 <= i < lead.len() implies out[i] == lead[i] by {
        assert(out.take(lead.len() as int)[i] == out[i]);
    }
    let mid = out.subrange((lead.len() + 1) as int, out.len() - 1);
    assert forall|i: int| #![trigger own[i]] 0 <= i < own.len() implies out[lead.len() + 1 + i]
        == own[i] by {
        assert(mid[i] == out[lead.len() + 1 + i]);
    }
}

/// A page reference goes on only from the same source to the same target, and only
/// while its field is where it was.
pub proof fn page_references_go_on_as_one_field(
    out: Seq<ParaChild>,
    f: PageField,
    span: Span,
    loc: Location,
)
    ensures
        !continues_field(out, None, span, loc),
        continues_field(out, Some(f), span, loc) ==> f.span == span && f.loc == loc && f.index
            < out.len() && out[f.index as int] is Run && out[f.index as int]->Run_0 is Field,
        f.span == span && f.loc == loc && f.index < out.len() && out[f.index as int] is Run
            && out[f.index as int]->Run_0 is Field ==> continues_field(out, Some(f), span, loc),
{
}

/// A field that goes on gets the new runs behind its result and stays the same
/// otherwise, as does every other child.
pub proof fn fields_go_on_behind_their_result(
    before: Seq<ParaChild>,
    after: Seq<ParaChild>,
    at: int,
    runs: Seq<Run>,
)
    requires
        field_extended(before, after, at, runs),
        0 <= at < before.len(),
    ensures
        after.len() == before.len(),
        before[at] is Run && before[at]->Run_0 is Field,
        after[at] is Run && after[at]->Run_0 is Field,
        after[at]->Run_0->Field_0.result@ == before[at]->Run_0->Field_0.result@ + runs,
        after[at]->Run_0->Field_0.instr == before[at]->Run_0->Field_0.instr,
        after[at]->Run_0->Field_0.mode == before[at]->Run_0->Field_0.mode,
        after[at]->Run_0->Field_0.display == before[at]->Run_0->Field_0.display,
        forall|i: int| 0 <= i < before.len() && i != at ==> #[trigger] after[i] == before[i],
{
}

/// A field behind which children were put in moves along, and one in front of them
/// does not.
pub proof fn fields_move_with_their_children(f: PageField, start: int, len: int, n: int)
    requires
        0 <= start <= len,
        0 <= n,
        len + n <= usize::MAX,
    ensures
        f.index < start ==> moved_field(Some(f), start, len, n) == Some(f),
        start <= f.index < len ==> moved_field(Some(f), start, len, n) is Some && moved_field(
            Some(f),
            start,
            len,
            n,
        ).unwrap().index == f.index + n,
        moved_field(None, start, len, n) is None,
{
}

/// Two links lead to the same place exactly where both lead to the same address and
/// the same anchor.
pub proof fn links_are_the_same_by_their_target(a: ParaChild, b: ParaChild)
    ensures
        same_target(child_item(a), child_item(b)) ==> a is Hyperlink && b is Hyperlink,
        a is Hyperlink && b is Hyperlink && a->rel is None && b->rel is None && a->anchor is Some
            && b->anchor is Some ==> (same_target(child_item(a), child_item(b))
            <==> a->anchor.unwrap()@ == b->anchor.unwrap()@),
        a is Hyperlink && b is Hyperlink && a->rel is Some && b->rel is None ==> !same_target(
            child_item(a),
            child_item(b),
        ),
{
}

/// Tags stay tags, in order.
pub proof fn tags_stay_in_order(tags: Seq<Tag>)
    ensures
        tag_children(tags).len() == tags.len(),
        forall|i: int|
            #![trigger tags[i]]
            0 <= i < tags.len() ==> tag_children(tags)[i] == ParaChild::Tag(tags[i]),
{
}

/// A live field shows its result and can be brought up to date.
pub proof fn live_fields_show_their_result(run: Run, instr: Seq<char>, result: Seq<RunItem>)
    requires
        is_live_field(run, instr, result),
    ensures
        run is Field,
        run->Field_0.instr@ == instr,
        run_items(run->Field_0.result@) == result,
        run->Field_0.mode is Live,
        run->Field_0.display is Visible,
        run->Field_0.cache_status is Resolved,
{
}

} // verus!
