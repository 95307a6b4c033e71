//! Identifiers, tables and names handed out while the document is lowered.

use vstd::prelude::*;

use rustc_hash::{FxHashMap, FxHashSet};

use crate::dom::{
    Block, BookmarkTable, Comment, Footnote, HeadingStyleSample, Jc, ListLevel, Location,
    MultiLevelType, NumberingTable, ReviewCandidateKind,
    ReviewJoinId, ReviewOrigin, Span, Tag, TocFigure, TocHeading,
};
use crate::fxmap::{fx_get, fx_insert, fx_new, fx_set_new};
use crate::rels::Rels;
use crate::text::{concat2, dec, dec_i64, dec_u64, str_eq};

verus! {

/// The relationship type of an image part.
pub const REL_IMAGE: &'static str = "http://schemas.openxmlformats.org/officeDocument/2006/relationships/image";

/// The relationship type of an external hyperlink.
pub const REL_HYPERLINK: &'static str = "http://schemas.openxmlformats.org/officeDocument/2006/relationships/hyperlink";

/// The relationship type of a header part.
pub const REL_HEADER: &'static str = "http://schemas.openxmlformats.org/officeDocument/2006/relationships/header";

/// The relationship type of a footer part.
pub const REL_FOOTER: &'static str = "http://schemas.openxmlformats.org/officeDocument/2006/relationships/footer";

/// A range of source text that is raw or code.
#[derive(Debug, Copy, Clone, PartialEq, Eq, Structural)]
pub struct RawRange {
    pub file: u64,
    pub start: usize,
    pub end: usize,
}

/// A numbering shape and the instance that uses it.
#[derive(Debug)]
pub struct ListShape {
    pub levels: Vec<ListLevel>,
    pub multilevel: MultiLevelType,
    pub num_id: u32,
}

/// A span comment that waits for its closing anchor.
#[derive(Debug)]
pub struct OpenComment {
    pub label: String,
    pub id: i32,
}

/// The mutable state accumulated while the document is lowered.
pub struct DocxCtx {
    pub footnotes: Vec<Footnote>,
    /// Footnote identifier, bookmark identifier and bookmark name of each
    /// footnote declaration.
    pub footnote_ids: FxHashMap<u128, (i32, u32, String)>,
    pub next_footnote_id: i32,
    pub comments: Vec<Comment>,
    pub open_comments: Vec<OpenComment>,
    pub next_comment_id: i32,
    pub numbering: NumberingTable,
    pub list_shapes: Vec<ListShape>,
    pub next_num_id: u32,
    pub next_review_join_id: u64,
    pub doc_rels: Rels,
    /// Relationships of footnote bodies.
    pub footnote_rels: Rels,
    /// Relationships of comment bodies.
    pub comment_rels: Rels,
    /// When present, the relationships of the header or footer being lowered.
    pub part_rels: Option<Rels>,
    pub next_bookmark_id: u32,
    /// Stable bookmark names of located semantic nodes.
    pub snapshot_bookmark_names: FxHashMap<u128, String>,
    pub emitted_bookmarks: FxHashSet<u128>,
    pub number_bookmarks: FxHashMap<u128, (String, u32)>,
    pub emitted_number_bookmarks: FxHashSet<u128>,
    /// The bookmark name of each source page and the location that holds it.
    pub page_bookmarks: FxHashMap<u128, (String, Location)>,
    pub next_docpr_id: u32,
    pub next_hdrftr_id: u32,
    pub next_z: u32,
    pub max_heading_level: u8,
    /// The multilevel shape that every numbered heading maps onto: none before
    /// the first one, and `Some(None)` once there is no common shape.
    pub heading_num_levels: Option<Option<Vec<ListLevel>>>,
    pub uses_math: bool,
    pub bookmarks: BookmarkTable,
    /// Tags harvested from rasterized content.
    pub deferred_tags: Vec<Tag>,
    /// Locations of page furniture that may need an alias in the paged layout.
    pub real_alias_locations: FxHashSet<u128>,
    pub heading_style_samples: Vec<HeadingStyleSample>,
    /// Most recent visible number at each heading level.
    pub current_heading_numbers: Vec<Option<String>>,
    /// The last character emitted into a text run.
    pub last_char: Option<char>,
    /// Alignment of the paragraph that owns a page counter.
    pub page_counter_paragraph_alignment: Option<Jc>,
    /// Nesting depth inside raw or code content.
    pub raw_depth: usize,
    pub raw_ranges: Vec<RawRange>,
    pub line_numbering_active: bool,
    pub in_footnote: bool,
    pub in_comment: bool,
    /// Width available to the content being lowered.
    pub available_width: i64,
    /// Text-area width of the section, before columns narrow it.
    pub page_content_width: i64,
    /// Text-area height of the section.
    pub available_height: i64,
    /// The height that relative shape heights resolve against. Absent inside a
    /// container that was not measured.
    pub shape_height_base: Option<i64>,
    /// The finite height that content is rasterized in when it does not lay out
    /// at an infinite one.
    pub raster_height: i64,
    /// Headings in document order.
    pub toc_headings: Vec<TocHeading>,
    /// Captioned figures in document order.
    pub toc_figures: Vec<TocFigure>,
    /// Whether the content will be centered, where text boxes do not flow.
    pub suppress_text_box: bool,
    /// Whether a table cell owns the geometry of the plain block inside it.
    pub cell_owns_inline_block_geometry: bool,
}

/// What a bookmark marks.
pub enum BookmarkKey {
    /// A located element.
    Location(u128),
    /// The displayed number of a located element.
    Number(u128),
    /// A source page, by the location that anchors it.
    Page(u128),
    /// A footnote's reference mark.
    Note(u128),
}

impl DocxCtx {
    /// The identifier of a bookmark that was handed out.
    pub open spec fn bookmark_id(self, key: BookmarkKey) -> Option<u32> {
        match key {
            BookmarkKey::Location(l) => if self.bookmarks.by_location@.contains_key(l) {
                Some(self.bookmarks.by_location@[l].1)
            } else {
                None
            },
            BookmarkKey::Number(l) => if self.number_bookmarks@.contains_key(l) {
                Some(self.number_bookmarks@[l].1)
            } else {
                None
            },
            BookmarkKey::Page(l) => if self.bookmarks.pages_by_location@.contains_key(l) {
                Some(self.bookmarks.pages_by_location@[l].1)
            } else {
                None
            },
            BookmarkKey::Note(d) => if self.footnote_ids@.contains_key(d) {
                Some(self.footnote_ids@[d].1)
            } else {
                None
            },
        }
    }

    /// Whether no two bookmarks share an identifier, and the next one is free.
    pub open spec fn bookmarks_distinct(self) -> bool {
        &&& forall|k: BookmarkKey|
            (#[trigger] self.bookmark_id(k)) matches Some(id) ==> id < self.next_bookmark_id
        &&& forall|a: BookmarkKey, b: BookmarkKey|
            a != b && (#[trigger] self.bookmark_id(a)) is Some && (#[trigger] self.bookmark_id(
                b,
            )) is Some ==> self.bookmark_id(a) != self.bookmark_id(b)
    }

    /// Whether every footnote has its own identifier: the declarations' ones are
    /// below the next, and no two share one.
    pub open spec fn notes_distinct(self) -> bool {
        &&& forall|d: u128|
            #[trigger] self.footnote_ids@.contains_key(d) ==> self.footnote_ids@[d].0
                < self.next_footnote_id
        &&& forall|a: u128, b: u128|
            a != b && #[trigger] self.footnote_ids@.contains_key(a)
                && #[trigger] self.footnote_ids@.contains_key(b) ==> self.footnote_ids@[a].0
                != self.footnote_ids@[b].0
        &&& forall|i: int|
            0 <= i < self.footnotes@.len() ==> (#[trigger] self.footnotes@[i]).id
                < self.next_footnote_id
        &&& forall|i: int, j: int|
            0 <= i < j < self.footnotes@.len() ==> (#[trigger] self.footnotes@[i]).id != (
            #[trigger] self.footnotes@[j]).id
    }

    /// A state without content, with every identifier at its first value.
    pub fn new() -> (r: Self)
        ensures
            r.bookmarks_distinct(),
            r.notes_distinct(),
            r.footnotes@.len() == 0,
            r.footnote_ids@ == Map::<u128, (i32, u32, String)>::empty(),
            r.next_footnote_id == 1,
            r.comments@.len() == 0,
            r.open_comments@.len() == 0,
            r.next_comment_id == 0,
            r.numbering.abstracts@.len() == 0,
            r.numbering.nums@.len() == 0,
            r.list_shapes@.len() == 0,
            r.next_num_id == 1,
            r.next_review_join_id == 1,
            r.doc_rels@.len() == 0,
            r.footnote_rels@.len() == 0,
            r.comment_rels@.len() == 0,
            r.part_rels is None,
            r.next_bookmark_id == 1,
            r.snapshot_bookmark_names@ == Map::<u128, String>::empty(),
            r.emitted_bookmarks@ == Set::<u128>::empty(),
            r.number_bookmarks@ == Map::<u128, (String, u32)>::empty(),
            r.emitted_number_bookmarks@ == Set::<u128>::empty(),
            r.page_bookmarks@ == Map::<u128, (String, Location)>::empty(),
            r.next_docpr_id == 1,
            r.next_hdrftr_id == 1,
            r.next_z == 1,
            r.max_heading_level == 0,
            r.heading_num_levels is None,
            !r.uses_math,
            r.bookmarks.by_location@ == Map::<u128, (String, u32)>::empty(),
            r.bookmarks.pages_by_location@ == Map::<u128, (String, u32)>::empty(),
            r.deferred_tags@.len() == 0,
            r.real_alias_locations@ == Set::<u128>::empty(),
            r.heading_style_samples@.len() == 0,
            r.current_heading_numbers@.len() == 0,
            r.last_char is None,
            r.page_counter_paragraph_alignment is None,
            r.raw_depth == 0,
            r.raw_ranges@.len() == 0,
            !r.line_numbering_active,
            !r.in_footnote,
            !r.in_comment,
            r.available_width == 450_000_000,
            r.page_content_width == 450_000_000,
            r.available_height == 698_000_000,
            r.shape_height_base == Some(698_000_000i64),
            r.raster_height == 842_000_000,
            r.toc_headings@.len() == 0,
            r.toc_figures@.len() == 0,
            !r.suppress_text_box,
            !r.cell_owns_inline_block_geometry,
    {
        DocxCtx {
            footnotes: Vec::new(),
            footnote_ids: fx_new(),
            next_footnote_id: 1,
            comments: Vec::new(),
            open_comments: Vec::new(),
            next_comment_id: 0,
            numbering: NumberingTable::default(),
            list_shapes: Vec::new(),
            next_num_id: 1,
            next_review_join_id: 1,
            doc_rels: Rels::new(),
            footnote_rels: Rels::new(),
            comment_rels: Rels::new(),
            part_rels: None,
            next_bookmark_id: 1,
            snapshot_bookmark_names: fx_new(),
            emitted_bookmarks: fx_set_new(),
            number_bookmarks: fx_new(),
            emitted_number_bookmarks: fx_set_new(),
            page_bookmarks: fx_new(),
            next_docpr_id: 1,
            next_hdrftr_id: 1,
            next_z: 1,
            max_heading_level: 0,
            heading_num_levels: None,
            uses_math: false,
            bookmarks: BookmarkTable { by_location: fx_new(), pages_by_location: fx_new() },
            deferred_tags: Vec::new(),
            real_alias_locations: fx_set_new(),
            heading_style_samples: Vec::new(),
            current_heading_numbers: Vec::new(),
            last_char: None,
            page_counter_paragraph_alignment: None,
            raw_depth: 0,
            raw_ranges: Vec::new(),
            line_numbering_active: false,
            in_footnote: false,
            in_comment: false,
            available_width: 450_000_000,
            page_content_width: 450_000_000,
            available_height: 698_000_000,
            shape_height_base: Some(698_000_000),
            raster_height: 842_000_000,
            toc_headings: Vec::new(),
            toc_figures: Vec::new(),
            suppress_text_box: false,
            cell_owns_inline_block_geometry: false,
        }
    }

    // -- Counters ------------------------------------------------------------

    /// Allocates a document-property identifier for a drawing.
    pub fn next_drawing_id(&mut self) -> (id: u32)
        requires
            old(self).next_docpr_id < u32::MAX,
        ensures
            id == old(self).next_docpr_id,
            *final(self) == (DocxCtx { next_docpr_id: (id + 1) as u32, ..*old(self) }),
    {
        let id: u32 = self.next_docpr_id;
        self.next_docpr_id = id + 1;
        id
    }

    /// Allocates a stacking position for a floating drawing.
    pub fn next_z(&mut self) -> (z: u32)
        requires
            old(self).next_z < u32::MAX,
        ensures
            z == old(self).next_z,
            *final(self) == (DocxCtx { next_z: (z + 1) as u32, ..*old(self) }),
    {
        let z: u32 = self.next_z;
        self.next_z = z + 1;
        z
    }

    /// Allocates a part name for a header or a footer. No two parts share one.
    pub fn next_hdrftr_name(&mut self, is_header: bool) -> (name: String)
        requires
            old(self).next_hdrftr_id < u32::MAX,
        ensures
            name@ == hdrftr_name(is_header, old(self).next_hdrftr_id),
            *final(self) == (DocxCtx {
                next_hdrftr_id: (old(self).next_hdrftr_id + 1) as u32,
                ..*old(self)
            }),
    {
        let n: u32 = self.next_hdrftr_id;
        self.next_hdrftr_id = n + 1;
        let number: String = dec_u64(n as u64);
        let head: String = if is_header {
            concat2("header", number.as_str())
        } else {
            concat2("footer", number.as_str())
        };
        concat2(head.as_str(), ".xml")
    }

    /// A fresh review origin for a source position.
    pub fn review_origin(&mut self, span: Span, kind: ReviewCandidateKind) -> (r: ReviewOrigin)
        ensures
            r == (ReviewOrigin { join_id: ReviewJoinId(old(self).next_review_join_id), span, kind }),
            *final(self) == (DocxCtx {
                next_review_join_id: if old(self).next_review_join_id < u64::MAX {
                    (old(self).next_review_join_id + 1) as u64
                } else {
                    u64::MAX
                },
                ..*old(self)
            }),
    {
        let id: u64 = self.next_review_join_id;
        self.next_review_join_id = if id < u64::MAX {
            id + 1
        } else {
            u64::MAX
        };
        ReviewOrigin { join_id: ReviewJoinId(id), span, kind }
    }

    // -- Notes and comments --------------------------------------------------

    /// Registers a footnote body under its declaration. The last component of
    /// the result is true only for the declaration's first occurrence; a later
    /// one refers back to the first through its bookmark.
    pub fn add_footnote(&mut self, declaration_id: u128, body_blocks: Vec<Block>) -> (r: (
        i32,
        u32,
        String,
        bool,
    ))
        requires
            old(self).footnote_ids@.contains_key(declaration_id) || (old(self).next_footnote_id
                < i32::MAX && old(self).next_bookmark_id < u32::MAX),
            old(self).bookmarks_distinct(),
            old(self).notes_distinct(),
        ensures
            final(self).bookmarks_distinct(),
            final(self).notes_distinct(),
            is_noted(
                *old(self),
                *final(self),
                declaration_id,
                body_blocks,
                Note { id: r.0, bookmark: r.1, name: r.2@, first: r.3 },
            ),
    {
        if let Some(entry) = fx_get(&self.footnote_ids, declaration_id) {
            return (entry.0, entry.1, entry.2.clone(), false);
        }
        let id: i32 = self.next_footnote_id;
        self.next_footnote_id = id + 1;
        let bookmark_id: u32 = self.next_bookmark_id;
        self.next_bookmark_id = bookmark_id + 1;
        let number: String = dec_i64(id as i64);
        let name: String = concat2("_FootnoteRef", number.as_str());
        let kept: String = name.clone();
        fx_insert(&mut self.footnote_ids, declaration_id, (id, bookmark_id, kept));
        self.footnotes.push(Footnote { id, blocks: body_blocks });
        proof {
            lemma_fresh_bookmark(*old(self), *self, BookmarkKey::Note(declaration_id));
        }
        (id, bookmark_id, name, true)
    }

    /// Registers a comment body and allocates its identifier.
    pub fn register_comment(
        &mut self,
        author: Option<String>,
        initials: Option<String>,
        date: Option<String>,
        blocks: Vec<Block>,
    ) -> (id: i32)
        requires
            old(self).next_comment_id < i32::MAX,
        ensures
            id == old(self).next_comment_id,
            final(self).comments@ == old(self).comments@.push(
                Comment { id, author, initials, date, blocks },
            ),
            *final(self) == (DocxCtx {
                comments: final(self).comments,
                next_comment_id: (id + 1) as i32,
                ..*old(self)
            }),
    {
        let id: i32 = self.next_comment_id;
        self.next_comment_id = id + 1;
        self.comments.push(Comment { id, author, initials, date, blocks });
        id
    }

    /// Records that the span comment with the given label was opened.
    pub fn open_comment_span(&mut self, label: String, id: i32)
        ensures
            open_spans(final(self).open_comments@) == open_spans(old(self).open_comments@).insert(
                label@,
                id,
            ),
            *final(self) == (DocxCtx { open_comments: final(self).open_comments, ..*old(self) }),
    {
        let ghost prior = self.open_comments@;
        self.open_comments.push(OpenComment { label, id });
        proof {
            lemma_open_push(prior, OpenComment { label, id });
            assert(self.open_comments@.drop_last() =~= prior);
        }
    }

    /// Takes the identifier that was opened under the given label. `None` is a
    /// closing anchor without an opening one.
    pub fn close_comment_span(&mut self, label: &str) -> (r: Option<i32>)
        ensures
            r == (if open_spans(old(self).open_comments@).contains_key(label@) {
                Some(open_spans(old(self).open_comments@)[label@])
            } else {
                None
            }),
            open_spans(final(self).open_comments@) == open_spans(old(self).open_comments@).remove(
                label@,
            ),
            *final(self) == (DocxCtx { open_comments: final(self).open_comments, ..*old(self) }),
    {
        let mut found: Option<i32> = None;
        let mut kept: Vec<OpenComment> = Vec::new();
        let n: usize = self.open_comments.len();
        let mut i: usize = 0;
        assert(open_spans(kept@) =~= open_spans(self.open_comments@.take(0)).remove(label@));
        while i < n
            invariant
                i <= n,
                n == self.open_comments@.len(),
                *self == *old(self),
                found == (if open_spans(self.open_comments@.take(i as int)).contains_key(label@) {
                    Some(open_spans(self.open_comments@.take(i as int))[label@])
                } else {
                    None
                }),
                open_spans(kept@) == open_spans(self.open_comments@.take(i as int)).remove(label@),
            decreases n - i,
        {
            let ghost all = self.open_comments@;
            assert(all.take(i + 1).drop_last() =~= all.take(i as int));
            assert(all.take(i + 1).last() == all[i as int]);
            let c: &OpenComment = &self.open_comments[i];
            if str_eq(c.label.as_str(), label) {
                found = Some(c.id);
                assert(open_spans(all.take(i + 1)).remove(label@) =~= open_spans(
                    all.take(i as int),
                ).remove(label@));
            } else {
                let ghost prior = kept@;
                let copy: OpenComment = OpenComment { label: c.label.clone(), id: c.id };
                kept.push(copy);
                assert(kept@.drop_last() =~= prior);
                assert(open_spans(all.take(i + 1)).remove(label@) =~= open_spans(
                    all.take(i as int),
                ).remove(label@).insert(c.label@, c.id));
            }
            i = i + 1;
        }
        assert(self.open_comments@.take(n as int) =~= self.open_comments@);
        self.open_comments = kept;
        found
    }
}

/// What a footnote is known by, and whether its declaration is met for the first
/// time.
pub struct Note {
    pub id: i32,
    pub bookmark: u32,
    pub name: Seq<char>,
    pub first: bool,
}

/// Whether `after` is `before` with the footnote of a declaration: a body that is
/// declared for the first time is added under new identifiers, and a later
/// declaration changes nothing.
pub open spec fn is_noted(
    before: DocxCtx,
    after: DocxCtx,
    declaration: u128,
    blocks: Vec<Block>,
    note: Note,
) -> bool {
    &&& after.footnote_ids@.contains_key(declaration)
    &&& after.footnote_ids@[declaration].0 == note.id
    &&& after.footnote_ids@[declaration].1 == note.bookmark
    &&& after.footnote_ids@[declaration].2@ == note.name
    &&& note.first == !before.footnote_ids@.contains_key(declaration)
    &&& !note.first ==> after == before
    &&& note.first ==> {
        &&& note.id == before.next_footnote_id
        &&& note.bookmark == before.next_bookmark_id
        &&& note.name == "_FootnoteRef"@ + dec(note.id as int)
        &&& after.footnotes@ == before.footnotes@.push(Footnote { id: note.id, blocks })
        &&& after.footnote_ids@ == before.footnote_ids@.insert(
            declaration,
            after.footnote_ids@[declaration],
        )
        &&& after.next_footnote_id == note.id + 1
        &&& after.next_bookmark_id == note.bookmark + 1
        &&& after == (DocxCtx {
            footnotes: after.footnotes,
            footnote_ids: after.footnote_ids,
            next_footnote_id: after.next_footnote_id,
            next_bookmark_id: after.next_bookmark_id,
            ..before
        })
    }
}

/// One declaration of a footnote and what was returned for it.
pub struct NoteCall {
    pub before: DocxCtx,
    pub after: DocxCtx,
    pub declaration: u128,
    pub blocks: Vec<Block>,
    pub note: Note,
}

/// Whether these are all declarations of footnotes since a state without any.
/// Bookmarks may be made in between.
pub open spec fn are_noted(calls: Seq<NoteCall>) -> bool {
    &&& calls.len() > 0 ==> calls[0].before.footnote_ids@ == Map::<
        u128,
        (i32, u32, String),
    >::empty()
    &&& forall|n: int|
        0 <= n < calls.len() ==> is_noted(
            (#[trigger] calls[n]).before,
            calls[n].after,
            calls[n].declaration,
            calls[n].blocks,
            calls[n].note,
        )
    &&& forall|m: int, n: int|
        0 <= m && n == m + 1 && n < calls.len() ==> {
            let done = (#[trigger] calls[m]).after;
            let next = (#[trigger] calls[n]).before;
            &&& next.footnote_ids@ == done.footnote_ids@
            &&& next.next_footnote_id == done.next_footnote_id
            &&& next.next_bookmark_id >= done.next_bookmark_id
        }
}

/// What holds after the first `n` declarations, in a state that comes behind them.
spec fn notes_kept(calls: Seq<NoteCall>, n: int, ctx: DocxCtx) -> bool {
    &&& forall|m: int|
        0 <= m < n ==> {
            let call = #[trigger] calls[m];
            &&& ctx.footnote_ids@.contains_key(call.declaration)
            &&& ctx.footnote_ids@[call.declaration].0 == call.note.id
            &&& ctx.footnote_ids@[call.declaration].1 == call.note.bookmark
            &&& ctx.footnote_ids@[call.declaration].2@ == call.note.name
            &&& call.note.id < ctx.next_footnote_id
            &&& call.note.bookmark < ctx.next_bookmark_id
            &&& call.note.name == "_FootnoteRef"@ + dec(call.note.id as int)
        }
    &&& forall|d: u128| #[trigger]
        ctx.footnote_ids@.contains_key(d) ==> exists|m: int|
            0 <= m < n && (#[trigger] calls[m]).declaration == d
}

proof fn lemma_notes_kept(calls: Seq<NoteCall>, n: int)
    requires
        are_noted(calls),
        0 <= n < calls.len(),
    ensures
        notes_kept(calls, n, calls[n].before),
        notes_kept(calls, n + 1, calls[n].after),
    decreases n,
{
    if n > 0 {
        lemma_notes_kept(calls, n - 1);
        assert(calls[n - 1].after.footnote_ids@ == calls[n].before.footnote_ids@);
    }
    let before = calls[n].before;
    let after = calls[n].after;
    assert(notes_kept(calls, n, before));
    assert(is_noted(before, after, calls[n].declaration, calls[n].blocks, calls[n].note));
    if !calls[n].note.first {
        let m = choose|m: int|
            0 <= m < n && (#[trigger] calls[m]).declaration == calls[n].declaration;
        assert(calls[m].declaration == calls[n].declaration);
    }
    assert forall|d: u128| #[trigger] after.footnote_ids@.contains_key(d) implies exists|m: int|
        0 <= m < n + 1 && (#[trigger] calls[m]).declaration == d by {
        if d == calls[n].declaration {
            assert(calls[n].declaration == d);
        } else {
            assert(before.footnote_ids@.contains_key(d));
            let m = choose|m: int| 0 <= m < n && (#[trigger] calls[m]).declaration == d;
            assert(calls[m].declaration == d);
        }
    }
}

/// Each declaration of a footnote counts once: the first time it appends its body
/// under identifiers that no other declaration has, and every later time it gives
/// back the same ones and changes nothing.
pub proof fn footnotes_are_numbered_once(calls: Seq<NoteCall>, n: int)
    requires
        are_noted(calls),
        0 <= n < calls.len(),
    ensures
        calls[n].note.first == (forall|m: int|
            0 <= m < n ==> (#[trigger] calls[m]).declaration != calls[n].declaration),
        calls[n].note.name == "_FootnoteRef"@ + dec(calls[n].note.id as int),
        calls[n].note.first ==> calls[n].after.footnotes@ == calls[n].before.footnotes@.push(
            Footnote { id: calls[n].note.id, blocks: calls[n].blocks },
        ),
        !calls[n].note.first ==> calls[n].after == calls[n].before,
        forall|m: int|
            0 <= m < n ==> {
                let call = #[trigger] calls[m];
                if call.declaration == calls[n].declaration {
                    &&& call.note.id == calls[n].note.id
                    &&& call.note.bookmark == calls[n].note.bookmark
                    &&& call.note.name == calls[n].note.name
                } else {
                    &&& call.note.id != calls[n].note.id
                    &&& call.note.bookmark != calls[n].note.bookmark
                }
            },
    decreases n,
{
    lemma_notes_kept(calls, n);
    let call = calls[n];
    assert(is_noted(call.before, call.after, call.declaration, call.blocks, call.note));
    if !call.note.first {
        let k = choose|k: int| 0 <= k < n && (#[trigger] calls[k]).declaration == call.declaration;
        assert(calls[k].declaration == call.declaration);
        footnotes_are_numbered_once(calls, k);
        assert forall|m: int|
            0 <= m < n && (#[trigger] calls[m]).declaration != call.declaration implies
            calls[m].note.id != call.note.id && calls[m].note.bookmark != call.note.bookmark by {
            if m > k {
                footnotes_are_numbered_once(calls, m);
            }
        }
    }
}

/// The comments opened under each label.
pub open spec fn open_spans(s: Seq<OpenComment>) -> Map<Seq<char>, i32>
    decreases s.len(),
{
    if s.len() == 0 {
        Map::empty()
    } else {
        open_spans(s.drop_last()).insert(s.last().label@, s.last().id)
    }
}

proof fn lemma_open_push(s: Seq<OpenComment>, c: OpenComment)
    ensures
        open_spans(s.push(c)) == open_spans(s).insert(c.label@, c.id),
{
    assert(s.push(c).drop_last() =~= s);
}

/// The name of a header or footer part.
pub open spec fn hdrftr_name(is_header: bool, n: u32) -> Seq<char> {
    (if is_header {
        "header"@
    } else {
        "footer"@
    }) + dec(n as int) + ".xml"@
}

/// Handing out the next bookmark identifier keeps identifiers distinct.
pub proof fn lemma_fresh_bookmark(before: DocxCtx, after: DocxCtx, key: BookmarkKey)
    requires
        before.bookmarks_distinct(),
        before.next_bookmark_id < u32::MAX,
        after.next_bookmark_id == before.next_bookmark_id + 1,
        after.bookmark_id(key) == Some(before.next_bookmark_id),
        forall|k: BookmarkKey| k != key ==> #[trigger] after.bookmark_id(k) == before.bookmark_id(k),
    ensures
        after.bookmarks_distinct(),
{
    assert forall|a: BookmarkKey, b: BookmarkKey|
        a != b && (#[trigger] after.bookmark_id(a)) is Some && (#[trigger] after.bookmark_id(
            b,
        )) is Some implies after.bookmark_id(a) != after.bookmark_id(b) by {
        if a == key {
            assert(after.bookmark_id(b) == before.bookmark_id(b));
        } else if b == key {
            assert(after.bookmark_id(a) == before.bookmark_id(a));
        } else {
            assert(after.bookmark_id(a) == before.bookmark_id(a));
            assert(after.bookmark_id(b) == before.bookmark_id(b));
        }
    }
    assert forall|k: BookmarkKey| (#[trigger] after.bookmark_id(k)) is Some implies after.bookmark_id(k)->0
        < after.next_bookmark_id by {
        if k != key {
            assert(after.bookmark_id(k) == before.bookmark_id(k));
        }
    }
}

} // verus!
