//! Bookmarks: the names and identifiers under which places are referred to.

use vstd::prelude::*;

use crate::ctx::inline::{join_text, joined};
use crate::ctx::state::{BookmarkKey, DocxCtx, lemma_fresh_bookmark};
use crate::dom::{
    Field, FieldCacheStatus, FieldDisplay, FieldMode, Location, Run,
};
use crate::fxmap::{fx_get, fx_insert, fx_new, fx_set_insert};
use crate::props::{RunItem, copy_run_props, run_items};
use crate::text::{
    concat2, dec, dec_u64, from_chars, hex_lower, lemma_dec_injective, push_hex_lower, slice_chars,
    to_chars,
};

verus! {

/// The name of a new bookmark on a located element.
pub open spec fn fresh_name(ctx: DocxCtx, loc: Location) -> Seq<char> {
    if ctx.snapshot_bookmark_names@.contains_key(loc.0) {
        ctx.snapshot_bookmark_names@[loc.0]@
    } else {
        "_Ref"@ + dec(ctx.next_bookmark_id as int)
    }
}

/// Whether `after` is `before` with a bookmark on `loc`, which has the given
/// identifier and name.
pub open spec fn bookmarked(
    before: DocxCtx,
    after: DocxCtx,
    loc: Location,
    id: u32,
    name: Seq<char>,
) -> bool {
    &&& after.bookmarks.by_location@.contains_key(loc.0)
    &&& after.bookmarks.by_location@[loc.0].0@ == name
    &&& after.bookmarks.by_location@[loc.0].1 == id
    &&& if before.bookmarks.by_location@.contains_key(loc.0) {
        after == before
    } else {
        &&& id == before.next_bookmark_id
        &&& name == fresh_name(before, loc)
        &&& after.bookmarks.by_location@ == before.bookmarks.by_location@.insert(
            loc.0,
            after.bookmarks.by_location@[loc.0],
        )
        &&& after.bookmarks.pages_by_location == before.bookmarks.pages_by_location
        &&& after == (DocxCtx {
            bookmarks: after.bookmarks,
            next_bookmark_id: (id + 1) as u32,
            ..before
        })
    }
}

/// Whether `after` is `before` with a bookmark on the displayed number of `loc`.
pub open spec fn number_bookmarked(
    before: DocxCtx,
    after: DocxCtx,
    loc: Location,
    id: u32,
    name: Seq<char>,
) -> bool {
    &&& after.number_bookmarks@.contains_key(loc.0)
    &&& after.number_bookmarks@[loc.0].0@ == name
    &&& after.number_bookmarks@[loc.0].1 == id
    &&& if before.number_bookmarks@.contains_key(loc.0) {
        after == before
    } else {
        exists|mid: DocxCtx, base_id: u32, base: Seq<char>|
            {
                &&& #[trigger] bookmarked(before, mid, loc, base_id, base)
                &&& id == mid.next_bookmark_id
                &&& name == base + "Number"@
                &&& after.number_bookmarks@ == mid.number_bookmarks@.insert(
                    loc.0,
                    after.number_bookmarks@[loc.0],
                )
                &&& after == (DocxCtx {
                    number_bookmarks: after.number_bookmarks,
                    next_bookmark_id: (id + 1) as u32,
                    ..mid
                })
            }
    }
}

/// The index behind the last space or no-break space, zero without one.
pub open spec fn number_start(text: Seq<char>) -> int
    decreases text.len(),
{
    if text.len() == 0 {
        0
    } else if text.last() == ' ' || text.last() == '\u{a0}' {
        text.len() as int
    } else {
        number_start(text.drop_last())
    }
}

/// The text of the text runs.
pub open spec fn text_of_runs(runs: Seq<Run>) -> Seq<char>
    decreases runs.len(),
{
    if runs.len() == 0 {
        seq![]
    } else {
        text_of_runs(runs.drop_last()) + (match runs.last() {
            Run::Text { props: _, text } => text@,
            _ => seq![],
        })
    }
}

/// The characters `from..to` of the text of runs, each with the formatting of the
/// run that it comes from. Neighbors with one formatting stand together.
pub open spec fn text_parts(runs: Seq<Run>, from: int, to: int) -> Seq<RunItem>
    decreases runs.len(),
{
    if runs.len() == 0 {
        seq![]
    } else {
        let before = text_parts(runs.drop_last(), from, to);
        let start = text_of_runs(runs.drop_last()).len();
        match runs.last() {
            Run::Text { props, text } => {
                let lo = within(from - start, text@.len() as int);
                let hi = within(to - start, text@.len() as int);
                if lo < hi {
                    joined(before, props@, text@.subrange(lo, hi))
                } else {
                    before
                }
            },
            _ => before,
        }
    }
}

/// The index nearest to `i` between zero and `n`.
pub open spec fn within(i: int, n: int) -> int {
    if i < 0 {
        0
    } else if i > n {
        n
    } else {
        i
    }
}

/// Whether a run is a live, visible field with the given resolved result.
pub open spec fn is_reference(run: Run, instr: Seq<char>, result: Seq<RunItem>) -> bool {
    match run {
        Run::Field(f) => {
            &&& f.instr@ == instr
            &&& run_items(f.result@) == result
            &&& f.mode == FieldMode::Live
            &&& f.display == FieldDisplay::Visible
            &&& f.cache_status == FieldCacheStatus::Resolved
        },
        _ => false,
    }
}

/// The runs of a reference: the words before the number as text, and the number
/// as a live reference to the bookmark `name`. Both keep the formatting of the
/// runs that they come from.
pub open spec fn is_number_reference(runs: Seq<Run>, out: Seq<Run>, name: Seq<char>) -> bool {
    let text = text_of_runs(runs);
    let split = number_start(text);
    &&& out.len() > 0
    &&& run_items(out.drop_last()) == text_parts(runs, 0, split)
    &&& is_reference(
        out.last(),
        " REF "@ + name + " \\h "@,
        text_parts(runs, split, text.len() as int),
    )
}

proof fn lemma_text_grows(runs: Seq<Run>, i: int)
    requires
        0 <= i <= runs.len(),
    ensures
        text_of_runs(runs.take(i)).len() <= text_of_runs(runs).len(),
    decreases runs.len(),
{
    if i == runs.len() {
        assert(runs.take(i) =~= runs);
    } else {
        lemma_text_grows(runs.drop_last(), i);
        assert(runs.drop_last().take(i) =~= runs.take(i));
    }
}

fn index_within(i: usize, start: usize, n: usize) -> (r: usize)
    ensures
        r == within(i - start, n as int),
{
    if i < start {
        0
    } else if i - start > n {
        n
    } else {
        i - start
    }
}

fn slice_runs(runs: &Vec<Run>, from: usize, to: usize) -> (r: Vec<Run>)
    requires
        text_of_runs(runs@).len() <= usize::MAX,
    ensures
        run_items(r@) == text_parts(runs@, from as int, to as int),
{
    let mut out: Vec<Run> = Vec::new();
    let mut start: usize = 0;
    let mut i: usize = 0;
    assert(run_items(out@) =~= text_parts(runs@.take(0), from as int, to as int));
    while i < runs.len()
        invariant
            i <= runs@.len(),
            text_of_runs(runs@).len() <= usize::MAX,
            start == text_of_runs(runs@.take(i as int)).len(),
            run_items(out@) == text_parts(runs@.take(i as int), from as int, to as int),
        decreases runs@.len() - i,
    {
        proof {
            assert(runs@.take(i + 1).drop_last() =~= runs@.take(i as int));
            lemma_text_grows(runs@, i + 1);
        }
        if let Run::Text { props, text } = &runs[i] {
            let chars: Vec<char> = to_chars(text.as_str());
            let lo: usize = index_within(from, start, chars.len());
            let hi: usize = index_within(to, start, chars.len());
            if lo < hi {
                let part: Vec<char> = slice_chars(&chars, lo, hi);
                join_text(&mut out, copy_run_props(props), from_chars(&part));
            }
            start = start + chars.len();
        }
        i = i + 1;
    }
    assert(runs@.take(i as int) =~= runs@);
    out
}

proof fn lemma_number_start(text: Seq<char>)
    ensures
        0 <= number_start(text) <= text.len(),
    decreases text.len(),
{
    if text.len() > 0 && text.last() != ' ' && text.last() != '\u{a0}' {
        lemma_number_start(text.drop_last());
    }
}

fn find_number_start(text: &Vec<char>) -> (r: usize)
    ensures
        r == number_start(text@),
        r <= text@.len(),
{
    let mut i: usize = text.len();
    assert(text@.take(i as int) =~= text@);
    while i > 0
        invariant
            i <= text@.len(),
            number_start(text@) == number_start(text@.take(i as int)),
        decreases i,
    {
        assert(text@.take(i as int).drop_last() =~= text@.take(i - 1));
        if text[i - 1] == ' ' || text[i - 1] == '\u{a0}' {
            return i;
        }
        i = i - 1;
    }
    0
}

/// A located semantic node and its stable identity.
#[derive(Debug, Copy, Clone, PartialEq, Eq, Structural)]
pub struct LocatedNode {
    pub location: Option<Location>,
    pub logical_id: u128,
}

/// The stable bookmark name of a node: of several at one location the last one
/// counts.
pub open spec fn snapshot_names(nodes: Seq<LocatedNode>) -> Map<u128, Seq<char>>
    decreases nodes.len(),
{
    if nodes.len() == 0 {
        Map::empty()
    } else {
        match nodes.last().location {
            Some(loc) => snapshot_names(nodes.drop_last()).insert(
                loc.0,
                "_Typst"@ + hex_lower(nodes.last().logical_id as nat, 32),
            ),
            None => snapshot_names(nodes.drop_last()),
        }
    }
}

/// The names in a map of names.
pub open spec fn name_texts(m: Map<u128, String>) -> Map<u128, Seq<char>> {
    m.map_values(|s: String| s@)
}

/// Whether an element became the link target of its source page.
pub open spec fn page_marked(
    before: DocxCtx,
    after: DocxCtx,
    loc: Location,
    page: usize,
    id: u32,
    name: Seq<char>,
) -> bool {
    &&& id == before.next_bookmark_id
    &&& name == "_TypstPage"@ + dec(page as int)
    &&& after.page_bookmarks@ == before.page_bookmarks@.insert(
        page as u128,
        after.page_bookmarks@[page as u128],
    )
    &&& after.page_bookmarks@[page as u128].0@ == name
    &&& after.page_bookmarks@[page as u128].1 == loc
    &&& after.bookmarks.pages_by_location@ == before.bookmarks.pages_by_location@.insert(
        loc.0,
        after.bookmarks.pages_by_location@[loc.0],
    )
    &&& after.bookmarks.pages_by_location@[loc.0].0@ == name
    &&& after.bookmarks.pages_by_location@[loc.0].1 == id
    &&& after.bookmarks.by_location == before.bookmarks.by_location
    &&& after == (DocxCtx {
        page_bookmarks: after.page_bookmarks,
        bookmarks: after.bookmarks,
        next_bookmark_id: (id + 1) as u32,
        ..before
    })
}

impl DocxCtx {
    /// Whether an element can have a bookmark: it has one, or an identifier is left.
    pub open spec fn can_bookmark(self, loc: Location) -> bool {
        self.bookmarks.by_location@.contains_key(loc.0) || self.next_bookmark_id < u32::MAX
    }

    /// Whether the bookmark of an element can be emitted: it was, or it can be had.
    pub open spec fn can_emit(self, loc: Location) -> bool {
        self.emitted_bookmarks@.contains(loc.0) || self.can_bookmark(loc)
    }

    /// Whether a source page can have a link target: it has one, or an identifier
    /// is left.
    pub open spec fn can_mark_page(self, page: usize) -> bool {
        self.page_bookmarks@.contains_key(page as u128) || self.next_bookmark_id < u32::MAX
    }

    /// Whether the number of an element can have a bookmark: it has one, or there
    /// are identifiers left for it and for the element.
    pub open spec fn can_bookmark_number(self, loc: Location) -> bool {
        ||| self.number_bookmarks@.contains_key(loc.0)
        ||| self.bookmarks.by_location@.contains_key(loc.0) && self.next_bookmark_id < u32::MAX
        ||| self.next_bookmark_id < u32::MAX - 1
    }

    /// Whether the bookmark of an element's number can be emitted: it was, or it
    /// can be had.
    pub open spec fn can_emit_number(self, loc: Location) -> bool {
        self.emitted_number_bookmarks@.contains(loc.0) || self.can_bookmark_number(loc)
    }

    /// Whether runs can refer to the number of an element: they show no number, or
    /// it can have a bookmark.
    pub open spec fn can_refer(self, loc: Location, runs: Seq<Run>) -> bool {
        number_start(text_of_runs(runs)) == text_of_runs(runs).len() || self.can_bookmark_number(
            loc,
        )
    }

    /// Installs the stable bookmark names of located semantic nodes.
    pub fn set_snapshot_bookmarks(&mut self, nodes: &Vec<LocatedNode>)
        ensures
            name_texts(final(self).snapshot_bookmark_names@) == snapshot_names(nodes@),
            *final(self) == (DocxCtx {
                snapshot_bookmark_names: final(self).snapshot_bookmark_names,
                ..*old(self)
            }),
    {
        self.snapshot_bookmark_names = fx_new();
        assert(name_texts(self.snapshot_bookmark_names@) =~= snapshot_names(nodes@.take(0)));
        let mut i: usize = 0;
        while i < nodes.len()
            invariant
                i <= nodes@.len(),
                name_texts(self.snapshot_bookmark_names@) == snapshot_names(nodes@.take(i as int)),
                *self == (DocxCtx {
                    snapshot_bookmark_names: self.snapshot_bookmark_names,
                    ..*old(self)
                }),
            decreases nodes@.len() - i,
        {
            let node: LocatedNode = nodes[i];
            assert(nodes@.take(i + 1).drop_last() =~= nodes@.take(i as int));
            if let Some(loc) = node.location {
                let mut name: String = "_Typst".to_owned();
                push_hex_lower(&mut name, node.logical_id, 32);
                let ghost before = self.snapshot_bookmark_names@;
                fx_insert(&mut self.snapshot_bookmark_names, loc.0, name);
                assert(name_texts(self.snapshot_bookmark_names@) =~= name_texts(before).insert(
                    loc.0,
                    name@,
                ));
            }
            i = i + 1;
        }
        assert(nodes@.take(i as int) =~= nodes@);
    }

    /// The identifier and the stable name of the bookmark on a located element,
    /// which is made when it is first asked for.
    pub fn add_bookmark(&mut self, loc: Location) -> (r: (u32, String))
        requires
            old(self).can_bookmark(loc),
            old(self).bookmarks_distinct(),
        ensures
            bookmarked(*old(self), *final(self), loc, r.0, r.1@),
            final(self).bookmarks_distinct(),
    {
        if let Some(entry) = fx_get(&self.bookmarks.by_location, loc.0) {
            return (entry.1, entry.0.clone());
        }
        let id: u32 = self.next_bookmark_id;
        self.next_bookmark_id = id + 1;
        let name: String = match fx_get(&self.snapshot_bookmark_names, loc.0) {
            Some(stable) => stable.clone(),
            None => {
                let number: String = dec_u64(id as u64);
                concat2("_Ref", number.as_str())
            },
        };
        let kept: String = name.clone();
        fx_insert(&mut self.bookmarks.by_location, loc.0, (kept, id));
        proof {
            lemma_fresh_bookmark(*old(self), *self, BookmarkKey::Location(loc.0));
        }
        (id, name)
    }

    /// The bookmark on a located element, the first time its markers are to be
    /// emitted and only then.
    pub fn bookmark_for_emission(&mut self, loc: Location) -> (r: Option<(u32, String)>)
        requires
            old(self).can_emit(loc),
            old(self).bookmarks_distinct(),
        ensures
            is_emission(*old(self), *final(self), loc, r is Some),
            final(self).bookmarks_distinct(),
            match r {
                Some((id, name)) => bookmarked(
                    (DocxCtx { emitted_bookmarks: final(self).emitted_bookmarks, ..*old(self) }),
                    *final(self),
                    loc,
                    id,
                    name@,
                ),
                None => *final(self) == (DocxCtx {
                    emitted_bookmarks: final(self).emitted_bookmarks,
                    ..*old(self)
                }),
            },
    {
        let fresh: bool = fx_set_insert(&mut self.emitted_bookmarks, loc.0);
        proof {
            lemma_same_bookmarks(*old(self), *self);
        }
        if fresh {
            Some(self.add_bookmark(loc))
        } else {
            None
        }
    }

    /// Makes the first located element of a source page the page's link target.
    /// `None` is a page that has one.
    pub fn page_bookmark_for_emission(&mut self, loc: Location, page: usize) -> (r: Option<
        (u32, String),
    >)
        requires
            old(self).can_mark_page(page),
            old(self).bookmarks_distinct(),
        ensures
            final(self).bookmarks_distinct(),
            r is Some == !old(self).page_bookmarks@.contains_key(page as u128),
            match r {
                None => *final(self) == *old(self),
                Some((id, name)) => page_marked(*old(self), *final(self), loc, page, id, name@),
            },
    {
        if fx_get(&self.page_bookmarks, page as u128).is_some() {
            return None;
        }
        let id: u32 = self.next_bookmark_id;
        self.next_bookmark_id = id + 1;
        let number: String = dec_u64(page as u64);
        let name: String = concat2("_TypstPage", number.as_str());
        let by_page: String = name.clone();
        let by_location: String = name.clone();
        fx_insert(&mut self.page_bookmarks, page as u128, (by_page, loc));
        fx_insert(&mut self.bookmarks.pages_by_location, loc.0, (by_location, id));
        proof {
            lemma_fresh_bookmark(*old(self), *self, BookmarkKey::Page(loc.0));
        }
        Some((id, name))
    }

    /// The name of a page's link target, unless it is the excluded element
    /// itself.
    pub fn page_bookmark(&self, page: usize, exclude: Option<Location>) -> (r: Option<String>)
        ensures
            match r {
                Some(name) => {
                    &&& self.page_bookmarks@.contains_key(page as u128)
                    &&& self.page_bookmarks@[page as u128].0@ == name@
                    &&& Some(self.page_bookmarks@[page as u128].1) != exclude
                },
                None => !self.page_bookmarks@.contains_key(page as u128) || Some(
                    self.page_bookmarks@[page as u128].1,
                ) == exclude,
            },
    {
        match fx_get(&self.page_bookmarks, page as u128) {
            Some(entry) => {
                let excluded: bool = match exclude {
                    Some(loc) => loc == entry.1,
                    None => false,
                };
                if excluded {
                    None
                } else {
                    Some(entry.0.clone())
                }
            },
            None => None,
        }
    }

    /// The bookmark around an element's displayed number.
    pub fn add_number_bookmark(&mut self, loc: Location) -> (r: (u32, String))
        requires
            old(self).can_bookmark_number(loc),
            old(self).bookmarks_distinct(),
        ensures
            number_bookmarked(*old(self), *final(self), loc, r.0, r.1@),
            final(self).bookmarks_distinct(),
    {
        if let Some(entry) = fx_get(&self.number_bookmarks, loc.0) {
            return (entry.1, entry.0.clone());
        }
        let base: (u32, String) = self.add_bookmark(loc);
        let ghost mid = *self;
        let id: u32 = self.next_bookmark_id;
        self.next_bookmark_id = id + 1;
        let name: String = concat2(base.1.as_str(), "Number");
        let kept: String = name.clone();
        fx_insert(&mut self.number_bookmarks, loc.0, (kept, id));
        proof {
            lemma_fresh_bookmark(mid, *self, BookmarkKey::Number(loc.0));
            assert(bookmarked(*old(self), mid, loc, base.0, base.1@));
        }
        (id, name)
    }

    /// The bookmark around an element's displayed number, the first time its
    /// markers are to be emitted and only then.
    pub fn number_bookmark_for_emission(&mut self, loc: Location) -> (r: Option<(u32, String)>)
        requires
            old(self).can_emit_number(loc),
            old(self).bookmarks_distinct(),
        ensures
            r is Some == !old(self).emitted_number_bookmarks@.contains(loc.0),
            final(self).emitted_number_bookmarks@ == old(self).emitted_number_bookmarks@.insert(
                loc.0,
            ),
            final(self).bookmarks_distinct(),
            match r {
                Some((id, name)) => number_bookmarked(
                    (DocxCtx {
                        emitted_number_bookmarks: final(self).emitted_number_bookmarks,
                        ..*old(self)
                    }),
                    *final(self),
                    loc,
                    id,
                    name@,
                ),
                None => *final(self) == (DocxCtx {
                    emitted_number_bookmarks: final(self).emitted_number_bookmarks,
                    ..*old(self)
                }),
            },
    {
        let fresh: bool = fx_set_insert(&mut self.emitted_number_bookmarks, loc.0);
        proof {
            lemma_same_bookmarks(*old(self), *self);
        }
        if fresh {
            Some(self.add_number_bookmark(loc))
        } else {
            None
        }
    }

    /// Turns a realized textual reference into its words followed by a live
    /// reference to the target's number. The text is split behind its last space,
    /// and every character keeps its formatting. Runs without text, or without a
    /// number behind the last space, come back as they are.
    pub fn live_number_reference_runs(&mut self, loc: Location, runs: Vec<Run>) -> (out: Vec<Run>)
        requires
            old(self).can_refer(loc, runs@),
            old(self).bookmarks_distinct(),
        ensures
            final(self).bookmarks_distinct(),
            if number_start(text_of_runs(runs@)) == text_of_runs(runs@).len() {
                out == runs && *final(self) == *old(self)
            } else {
                exists|id: u32, name: Seq<char>|
                    {
                        &&& #[trigger] number_bookmarked(*old(self), *final(self), loc, id, name)
                        &&& is_number_reference(runs@, out@, name)
                    }
            },
    {
        let mut text: String = String::new();
        assert(text@ =~= text_of_runs(runs@.take(0)));
        let mut i: usize = 0;
        while i < runs.len()
            invariant
                i <= runs@.len(),
                text@ == text_of_runs(runs@.take(i as int)),
            decreases runs@.len() - i,
        {
            assert(runs@.take(i + 1).drop_last() =~= runs@.take(i as int));
            if let Run::Text { props: _, text: part } = &runs[i] {
                text.append(part.as_str());
            } else {
                assert(text_of_runs(runs@.take(i + 1)) =~= text@);
            }
            i = i + 1;
        }
        assert(runs@.take(i as int) =~= runs@);
        let chars: Vec<char> = to_chars(text.as_str());
        let split: usize = find_number_start(&chars);
        if split == chars.len() {
            return runs;
        }
        let (_id, name) = self.add_number_bookmark(loc);
        let mut out: Vec<Run> = slice_runs(&runs, 0, split);
        let ghost words = out@;
        let result: Vec<Run> = slice_runs(&runs, split, chars.len());
        let mut instr: String = concat2(" REF ", name.as_str());
        instr.append(" \\h ");
        out.push(
            Run::Field(
                Field {
                    instr,
                    result,
                    mode: FieldMode::Live,
                    display: FieldDisplay::Visible,
                    cache_status: FieldCacheStatus::Resolved,
                },
            ),
        );
        assert(out@.drop_last() =~= words);
        assert(number_bookmarked(*old(self), *self, loc, _id, name@));
        out
    }
}

/// Two states with the same bookmarks have distinct ones alike.
pub proof fn lemma_same_bookmarks(before: DocxCtx, after: DocxCtx)
    requires
        before.bookmarks_distinct(),
        after.next_bookmark_id == before.next_bookmark_id,
        after.bookmarks == before.bookmarks,
        after.number_bookmarks == before.number_bookmarks,
        after.footnote_ids == before.footnote_ids,
    ensures
        after.bookmarks_distinct(),
{
    assert forall|k: BookmarkKey| #[trigger] after.bookmark_id(k) == before.bookmark_id(k) by {}
    assert forall|a: BookmarkKey, b: BookmarkKey|
        a != b && (#[trigger] after.bookmark_id(a)) is Some && (#[trigger] after.bookmark_id(
            b,
        )) is Some implies after.bookmark_id(a) != after.bookmark_id(b) by {
        assert(before.bookmark_id(a) is Some && before.bookmark_id(b) is Some);
    }
    assert forall|k: BookmarkKey| (#[trigger] after.bookmark_id(k)) is Some implies
        after.bookmark_id(k)->0 < after.next_bookmark_id by {
        assert(before.bookmark_id(k) is Some);
    }
}

/// Asking for the bookmark of one element again gives the same identifier and
/// name, and changes nothing.
pub proof fn bookmarks_are_stable(
    first: DocxCtx,
    second: DocxCtx,
    third: DocxCtx,
    loc: Location,
    a: u32,
    x: Seq<char>,
    b: u32,
    y: Seq<char>,
)
    requires
        bookmarked(first, second, loc, a, x),
        bookmarked(second, third, loc, b, y),
    ensures
        a == b,
        x == y,
        third == second,
{
}

/// Making a bookmark leaves the bookmarks of other elements as they are.
pub proof fn bookmarks_persist(
    before: DocxCtx,
    after: DocxCtx,
    loc: Location,
    id: u32,
    name: Seq<char>,
    other: Location,
)
    requires
        bookmarked(before, after, loc, id, name),
        before.bookmarks.by_location@.contains_key(other.0),
    ensures
        after.bookmarks.by_location@.contains_key(other.0),
        after.bookmarks.by_location@[other.0] == before.bookmarks.by_location@[other.0],
{
}

/// Whether the markers of an element's bookmark were asked for between two states,
/// and whether they are to be emitted: they are unless they were before.
pub open spec fn is_emission(before: DocxCtx, after: DocxCtx, loc: Location, emit: bool) -> bool {
    &&& emit == !before.emitted_bookmarks@.contains(loc.0)
    &&& after.emitted_bookmarks@ == before.emitted_bookmarks@.insert(loc.0)
}

/// One request for the markers of a bookmark.
pub struct Emission {
    pub before: DocxCtx,
    pub after: DocxCtx,
    pub loc: Location,
    pub emit: bool,
}

/// Whether these are all requests for markers since a state in which nothing was
/// emitted.
pub open spec fn are_emissions(calls: Seq<Emission>) -> bool {
    &&& calls.len() > 0 ==> calls[0].before.emitted_bookmarks@ == Set::<u128>::empty()
    &&& forall|n: int|
        0 <= n < calls.len() ==> is_emission(
            (#[trigger] calls[n]).before,
            calls[n].after,
            calls[n].loc,
            calls[n].emit,
        )
    &&& forall|m: int, n: int|
        0 <= m && n == m + 1 && n < calls.len() ==> (#[trigger] calls[n]).before.emitted_bookmarks@
            == (#[trigger] calls[m]).after.emitted_bookmarks@
}

proof fn lemma_emitted(calls: Seq<Emission>, n: int)
    requires
        are_emissions(calls),
        0 <= n < calls.len(),
    ensures
        forall|l: u128| #[trigger]
            calls[n].before.emitted_bookmarks@.contains(l) <==> exists|m: int|
                0 <= m < n && (#[trigger] calls[m]).loc.0 == l,
    decreases n,
{
    if n > 0 {
        lemma_emitted(calls, n - 1);
        let last = calls[n - 1];
        assert(calls[n].before.emitted_bookmarks@ == last.after.emitted_bookmarks@);
        assert(is_emission(last.before, last.after, last.loc, last.emit));
        assert forall|l: u128| #[trigger]
            calls[n].before.emitted_bookmarks@.contains(l) implies exists|m: int|
            0 <= m < n && (#[trigger] calls[m]).loc.0 == l by {
            if l == last.loc.0 {
                assert(calls[n - 1].loc.0 == l);
            } else {
                let m = choose|m: int| 0 <= m < n - 1 && (#[trigger] calls[m]).loc.0 == l;
                assert(calls[m].loc.0 == l);
            }
        }
    }
}

/// The markers of a bookmark are emitted once: of all requests for one element
/// since nothing was emitted, the first one is granted and no other.
pub proof fn bookmarks_are_emitted_once(calls: Seq<Emission>, n: int)
    requires
        are_emissions(calls),
        0 <= n < calls.len(),
    ensures
        calls[n].emit == (forall|m: int| 0 <= m < n ==> (#[trigger] calls[m]).loc != calls[n].loc),
{
    lemma_emitted(calls, n);
    let call = calls[n];
    assert(is_emission(call.before, call.after, call.loc, call.emit));
    if !call.emit {
        let m = choose|m: int| 0 <= m < n && (#[trigger] calls[m]).loc.0 == call.loc.0;
        assert(calls[m].loc == call.loc);
    }
}

/// Two bookmarks that were named by their number have different names.
pub proof fn generated_names_differ(a: u32, b: u32)
    requires
        a != b,
    ensures
        "_Ref"@ + dec(a as int) != "_Ref"@ + dec(b as int),
{
    let x = "_Ref"@ + dec(a as int);
    let y = "_Ref"@ + dec(b as int);
    if x == y {
        let k = "_Ref"@.len() as int;
        assert(dec(a as int) =~= x.subrange(k, x.len() as int));
        assert(dec(b as int) =~= y.subrange(k, y.len() as int));
        lemma_dec_injective(a as int, b as int);
    }
}

} // verus!
