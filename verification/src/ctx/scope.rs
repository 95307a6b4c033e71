//! What the content being lowered is part of: the package part that owns its
//! relationships, the width and height it may take, and raw text.

use vstd::prelude::*;

use crate::ctx::state::{DocxCtx, REL_FOOTER, REL_HEADER, REL_HYPERLINK, REL_IMAGE, RawRange};
use crate::dom::{Field, FieldCacheStatus, FieldDisplay, FieldMode, Jc, Run};
use crate::length::{TWIP, abs_to_twip, twips};
use crate::rels::{RelMode, RelSpec, Rels, rel_id, rel_index, with_rel};
use crate::text::{concat2, cut_prefix, strip_prefix};

verus! {

/// The state inside a scope of the given height.
pub open spec fn in_height(ctx: DocxCtx, base: Option<i64>) -> DocxCtx {
    match base {
        Some(height) => if height > 0 {
            DocxCtx { shape_height_base: Some(height), raster_height: height, ..ctx }
        } else {
            DocxCtx { shape_height_base: None, ..ctx }
        },
        None => DocxCtx { shape_height_base: None, ..ctx },
    }
}

/// The relationship to a web address.
pub open spec fn web_rel(url: Seq<char>) -> RelSpec {
    RelSpec { ty: REL_HYPERLINK@, target: url, mode: RelMode::External }
}

/// The relationships that the content being lowered refers to: those of a header
/// or footer, else of footnotes, else of comments, else of the document.
pub open spec fn active_table(ctx: DocxCtx) -> Seq<RelSpec> {
    match ctx.part_rels {
        Some(rels) => rels@,
        None => if ctx.in_footnote {
            ctx.footnote_rels@
        } else if ctx.in_comment {
            ctx.comment_rels@
        } else {
            ctx.doc_rels@
        },
    }
}

/// Whether `after` differs from `before` in the active relationships alone.
pub open spec fn only_active_table_differs(before: DocxCtx, after: DocxCtx) -> bool {
    match before.part_rels {
        Some(_) => {
            &&& after.part_rels is Some
            &&& after == (DocxCtx { part_rels: after.part_rels, ..before })
        },
        None => if before.in_footnote {
            after == (DocxCtx { footnote_rels: after.footnote_rels, ..before })
        } else if before.in_comment {
            after == (DocxCtx { comment_rels: after.comment_rels, ..before })
        } else {
            after == (DocxCtx { doc_rels: after.doc_rels, ..before })
        },
    }
}

/// The target of a media part, relative to the folder of the document part.
pub open spec fn media_target(part_name: Seq<char>) -> Seq<char> {
    match cut_prefix(part_name, "word/"@) {
        Some(rest) => rest,
        None => part_name,
    }
}

/// A width in twips, at least one.
pub open spec fn width_dxa(width: i64) -> i32 {
    if twips(width as int) < 1 {
        1
    } else {
        twips(width as int)
    }
}

/// The dimensions that a nested scope replaced.
#[derive(Debug, Copy, Clone, PartialEq, Eq, Structural)]
pub struct HeightScope {
    pub base: Option<i64>,
    pub raster_height: i64,
}

/// One raw or code element, with the source range of each of its lines where it
/// has lines, and its own.
#[derive(Debug)]
pub struct RawNode {
    pub own: Option<RawRange>,
    pub lines: Vec<Option<RawRange>>,
}

/// The raw ranges after one more was met: empty and known ones are not recorded.
pub open spec fn raw_recorded(known: Seq<RawRange>, range: Option<RawRange>) -> Seq<RawRange> {
    match range {
        Some(r) => if r.start < r.end && !known.contains(r) {
            known.push(r)
        } else {
            known
        },
        None => known,
    }
}

/// The raw ranges after several more were met.
pub open spec fn all_raw_recorded(known: Seq<RawRange>, ranges: Seq<Option<RawRange>>) -> Seq<
    RawRange,
>
    decreases ranges.len(),
{
    if ranges.len() == 0 {
        known
    } else {
        raw_recorded(all_raw_recorded(known, ranges.drop_last()), ranges.last())
    }
}

/// The ranges of one raw element: of its lines, or its own without lines.
pub open spec fn raw_ranges_of(node: RawNode) -> Seq<Option<RawRange>> {
    if node.lines@.len() == 0 {
        seq![node.own]
    } else {
        node.lines@
    }
}

/// The raw ranges after the raw elements of some content were met.
pub open spec fn raw_nodes_recorded(known: Seq<RawRange>, nodes: Seq<RawNode>) -> Seq<RawRange>
    decreases nodes.len(),
{
    if nodes.len() == 0 {
        known
    } else {
        all_raw_recorded(
            raw_nodes_recorded(known, nodes.drop_last()),
            raw_ranges_of(nodes.last()),
        )
    }
}

/// Whether a source range lies in a known raw range.
pub open spec fn in_raw(known: Seq<RawRange>, range: Option<RawRange>) -> bool {
    match range {
        Some(r) => exists|i: int|
            0 <= i < known.len() && (#[trigger] known[i]).file == r.file && known[i].start
                <= r.start && r.end <= known[i].end,
        None => false,
    }
}

/// Whether `run` is the hidden field that steps a caption counter.
pub open spec fn is_hidden_seq(run: Run, name: Seq<char>) -> bool {
    match run {
        Run::Field(f) => {
            &&& f.instr@ == " SEQ "@ + name + " \\h "@
            &&& f.result@.len() == 0
            &&& f.mode == FieldMode::Live
            &&& f.display == FieldDisplay::Hidden
            &&& f.cache_status == FieldCacheStatus::ConsumerRequired
        },
        _ => false,
    }
}

impl DocxCtx {
    /// Adds a relationship for the content being lowered, or reuses an equal one.
    pub fn add_active_rel(&mut self, ty: &'static str, target: &str, mode: RelMode) -> (id: String)
        requires
            active_table(*old(self)).len() < usize::MAX,
        ensures
            active_table(*final(self)) == with_rel(
                active_table(*old(self)),
                RelSpec { ty: ty@, target: target@, mode },
            ),
            id@ == rel_id(
                rel_index(
                    active_table(*old(self)),
                    RelSpec { ty: ty@, target: target@, mode },
                    0,
                ),
            ),
            only_active_table_differs(*old(self), *final(self)),
    {
        if let Some(rels) = &mut self.part_rels {
            rels.add_rel(ty, target, mode)
        } else if self.in_footnote {
            self.footnote_rels.add_rel(ty, target, mode)
        } else if self.in_comment {
            self.comment_rels.add_rel(ty, target, mode)
        } else {
            self.doc_rels.add_rel(ty, target, mode)
        }
    }

    /// The relationship to an embedded image, given the name of its media part.
    pub fn add_image(&mut self, part_name: &str) -> (id: String)
        requires
            active_table(*old(self)).len() < usize::MAX,
        ensures
            ({
                let rel = RelSpec {
                    ty: REL_IMAGE@,
                    target: media_target(part_name@),
                    mode: RelMode::Internal,
                };
                &&& active_table(*final(self)) == with_rel(active_table(*old(self)), rel)
                &&& id@ == rel_id(rel_index(active_table(*old(self)), rel, 0))
            }),
            only_active_table_differs(*old(self), *final(self)),
    {
        match strip_prefix(part_name, "word/") {
            Some(target) => self.add_active_rel(REL_IMAGE, target.as_str(), RelMode::Internal),
            None => self.add_active_rel(REL_IMAGE, part_name, RelMode::Internal),
        }
    }

    /// The relationship to a web address.
    pub fn add_external_rel(&mut self, url: &str) -> (id: String)
        requires
            active_table(*old(self)).len() < usize::MAX,
        ensures
            ({
                let rel = RelSpec { ty: REL_HYPERLINK@, target: url@, mode: RelMode::External };
                &&& active_table(*final(self)) == with_rel(active_table(*old(self)), rel)
                &&& id@ == rel_id(rel_index(active_table(*old(self)), rel, 0))
            }),
            active_table(*final(self)) == with_rel(active_table(*old(self)), web_rel(url@)),
            id@ == rel_id(rel_index(active_table(*old(self)), web_rel(url@), 0)),
            only_active_table_differs(*old(self), *final(self)),
    {
        self.add_active_rel(REL_HYPERLINK, url, RelMode::External)
    }

    /// The document's relationship to a header part.
    pub fn add_header_rel(&mut self, target: &str) -> (id: String)
        requires
            old(self).doc_rels@.len() < usize::MAX,
        ensures
            ({
                let rel = RelSpec { ty: REL_HEADER@, target: target@, mode: RelMode::Internal };
                &&& final(self).doc_rels@ == with_rel(old(self).doc_rels@, rel)
                &&& id@ == rel_id(rel_index(old(self).doc_rels@, rel, 0))
            }),
            *final(self) == (DocxCtx { doc_rels: final(self).doc_rels, ..*old(self) }),
    {
        self.doc_rels.add_rel(REL_HEADER, target, RelMode::Internal)
    }

    /// The document's relationship to a footer part.
    pub fn add_footer_rel(&mut self, target: &str) -> (id: String)
        requires
            old(self).doc_rels@.len() < usize::MAX,
        ensures
            ({
                let rel = RelSpec { ty: REL_FOOTER@, target: target@, mode: RelMode::Internal };
                &&& final(self).doc_rels@ == with_rel(old(self).doc_rels@, rel)
                &&& id@ == rel_id(rel_index(old(self).doc_rels@, rel, 0))
            }),
            *final(self) == (DocxCtx { doc_rels: final(self).doc_rels, ..*old(self) }),
    {
        self.doc_rels.add_rel(REL_FOOTER, target, RelMode::Internal)
    }

    /// Starts the lowering of a part with relationships of its own; returns what
    /// [`DocxCtx::end_part`] puts back.
    pub fn begin_part(&mut self) -> (saved: Option<Rels>)
        ensures
            saved == old(self).part_rels,
            final(self).part_rels matches Some(rels) && rels@.len() == 0,
            *final(self) == (DocxCtx { part_rels: final(self).part_rels, ..*old(self) }),
    {
        let saved: Option<Rels> = self.part_rels.take();
        self.part_rels = Some(Rels::new());
        saved
    }

    /// Ends the lowering of a part; returns the relationships it made.
    pub fn end_part(&mut self, saved: Option<Rels>) -> (r: Rels)
        ensures
            match old(self).part_rels {
                Some(rels) => r == rels,
                None => r@.len() == 0,
            },
            *final(self) == (DocxCtx { part_rels: saved, ..*old(self) }),
    {
        let made: Option<Rels> = self.part_rels.take();
        self.part_rels = saved;
        match made {
            Some(rels) => rels,
            None => Rels::new(),
        }
    }

    /// The available width in twips.
    pub fn available_width_dxa(&self) -> (r: i32)
        ensures
            r == width_dxa(self.available_width),
    {
        let w: i32 = abs_to_twip(self.available_width);
        if w < 1 {
            1
        } else {
            w
        }
    }

    /// The section's text width in twips.
    pub fn page_content_width_dxa(&self) -> (r: i32)
        ensures
            r == width_dxa(self.page_content_width),
    {
        let w: i32 = abs_to_twip(self.page_content_width);
        if w < 1 {
            1
        } else {
            w
        }
    }

    /// Narrows the available width for a nested scope; returns the width that
    /// [`DocxCtx::restore_available_width`] puts back.
    pub fn narrow_available_width(&mut self, width_dxa: i32) -> (previous: i64)
        ensures
            previous == old(self).available_width,
            *final(self) == (DocxCtx {
                available_width: (if width_dxa < 1 {
                    TWIP as int
                } else {
                    width_dxa * TWIP
                }) as i64,
                ..*old(self)
            }),
    {
        let previous: i64 = self.available_width;
        self.available_width = if width_dxa < 1 {
            TWIP
        } else {
            width_dxa as i64 * TWIP
        };
        previous
    }

    /// Ends a nested scope.
    pub fn restore_available_width(&mut self, previous: i64)
        ensures
            *final(self) == (DocxCtx { available_width: previous, ..*old(self) }),
    {
        self.available_width = previous;
    }

    /// Sets the height that relative shape heights resolve against for a nested
    /// scope. A positive height bounds rasterization too; any other leaves
    /// relative heights without a base.
    pub fn enter_height_scope(&mut self, base: Option<i64>) -> (previous: HeightScope)
        ensures
            previous == (HeightScope {
                base: old(self).shape_height_base,
                raster_height: old(self).raster_height,
            }),
            *final(self) == (match base {
                Some(height) => if height > 0 {
                    DocxCtx {
                        shape_height_base: Some(height),
                        raster_height: height,
                        ..*old(self)
                    }
                } else {
                    DocxCtx { shape_height_base: None, ..*old(self) }
                },
                None => DocxCtx { shape_height_base: None, ..*old(self) },
            }),
            *final(self) == in_height(*old(self), base),
    {
        let previous: HeightScope = HeightScope {
            base: self.shape_height_base,
            raster_height: self.raster_height,
        };
        self.shape_height_base = None;
        if let Some(height) = base {
            if height > 0 {
                self.shape_height_base = Some(height);
                self.raster_height = height;
            }
        }
        previous
    }

    /// Ends a nested scope.
    pub fn leave_height_scope(&mut self, previous: HeightScope)
        ensures
            *final(self) == (DocxCtx {
                shape_height_base: previous.base,
                raster_height: previous.raster_height,
                ..*old(self)
            }),
    {
        self.shape_height_base = previous.base;
        self.raster_height = previous.raster_height;
    }

    /// Forgets the alignment of the paragraph that owned a page counter.
    pub fn reset_page_counter_paragraph_alignment(&mut self)
        ensures
            *final(self) == (DocxCtx { page_counter_paragraph_alignment: None, ..*old(self) }),
    {
        self.page_counter_paragraph_alignment = None;
    }

    /// Takes the alignment of the paragraph that owned a page counter.
    pub fn take_page_counter_paragraph_alignment(&mut self) -> (r: Option<Jc>)
        ensures
            r == old(self).page_counter_paragraph_alignment,
            *final(self) == (DocxCtx { page_counter_paragraph_alignment: None, ..*old(self) }),
    {
        self.page_counter_paragraph_alignment.take()
    }

    /// Marks that math was emitted.
    pub fn mark_math(&mut self)
        ensures
            *final(self) == (DocxCtx { uses_math: true, ..*old(self) }),
    {
        self.uses_math = true;
    }

    /// Starts raw or code content.
    pub fn enter_raw(&mut self)
        requires
            old(self).raw_depth < usize::MAX,
        ensures
            *final(self) == (DocxCtx { raw_depth: (old(self).raw_depth + 1) as usize, ..*old(self) }),
    {
        self.raw_depth = self.raw_depth + 1;
    }

    /// Ends raw or code content.
    pub fn leave_raw(&mut self)
        requires
            old(self).raw_depth > 0,
        ensures
            *final(self) == (DocxCtx { raw_depth: (old(self).raw_depth - 1) as usize, ..*old(self) }),
    {
        self.raw_depth = self.raw_depth - 1;
    }

    /// Records one raw source range.
    pub fn record_raw_span(&mut self, range: Option<RawRange>)
        ensures
            final(self).raw_ranges@ == raw_recorded(old(self).raw_ranges@, range),
            *final(self) == (DocxCtx { raw_ranges: final(self).raw_ranges, ..*old(self) }),
    {
        if let Some(r) = range {
            if r.start < r.end {
                let mut i: usize = 0;
                while i < self.raw_ranges.len()
                    invariant
                        i <= self.raw_ranges@.len(),
                        *self == *old(self),
                        range == Some(r),
                        forall|k: int| 0 <= k < i ==> #[trigger] self.raw_ranges@[k] != r,
                    decreases self.raw_ranges@.len() - i,
                {
                    if self.raw_ranges[i] == r {
                        assert(self.raw_ranges@.contains(r));
                        return;
                    }
                    i = i + 1;
                }
                self.raw_ranges.push(r);
            }
        }
    }

    fn record_raw_lines(&mut self, lines: &Vec<Option<RawRange>>)
        ensures
            final(self).raw_ranges@ == all_raw_recorded(old(self).raw_ranges@, lines@),
            *final(self) == (DocxCtx { raw_ranges: final(self).raw_ranges, ..*old(self) }),
    {
        let mut i: usize = 0;
        while i < lines.len()
            invariant
                i <= lines@.len(),
                self.raw_ranges@ == all_raw_recorded(old(self).raw_ranges@, lines@.take(i as int)),
                *self == (DocxCtx { raw_ranges: self.raw_ranges, ..*old(self) }),
            decreases lines@.len() - i,
        {
            assert(lines@.take(i + 1).drop_last() =~= lines@.take(i as int));
            self.record_raw_span(lines[i]);
            i = i + 1;
        }
        assert(lines@.take(i as int) =~= lines@);
    }

    /// Records the raw source ranges of some content before it is realized.
    pub fn record_raw_ranges(&mut self, nodes: &Vec<RawNode>)
        ensures
            final(self).raw_ranges@ == raw_nodes_recorded(old(self).raw_ranges@, nodes@),
            *final(self) == (DocxCtx { raw_ranges: final(self).raw_ranges, ..*old(self) }),
    {
        let mut i: usize = 0;
        while i < nodes.len()
            invariant
                i <= nodes@.len(),
                self.raw_ranges@ == raw_nodes_recorded(old(self).raw_ranges@, nodes@.take(i as int)),
                *self == (DocxCtx { raw_ranges: self.raw_ranges, ..*old(self) }),
            decreases nodes@.len() - i,
        {
            assert(nodes@.take(i + 1).drop_last() =~= nodes@.take(i as int));
            let ghost known = self.raw_ranges@;
            if nodes[i].lines.len() == 0 {
                self.record_raw_span(nodes[i].own);
                proof {
                    let own = nodes@[i as int].own;
                    assert(raw_ranges_of(nodes@[i as int]) == seq![own]);
                    assert(seq![own].drop_last() =~= seq![]);
                    assert(all_raw_recorded(known, seq![]) == known);
                    assert(all_raw_recorded(known, seq![own]) == raw_recorded(known, own));
                }
            } else {
                self.record_raw_lines(&nodes[i].lines);
            }
            i = i + 1;
        }
        assert(nodes@.take(i as int) =~= nodes@);
    }

    /// Whether text comes from raw or code content: from inside a raw scope, or
    /// from a recorded source range.
    pub fn span_is_raw(&self, range: Option<RawRange>) -> (r: bool)
        ensures
            r == (self.raw_depth > 0 || in_raw(self.raw_ranges@, range)),
    {
        if self.raw_depth > 0 {
            return true;
        }
        match range {
            Some(span) => {
                let mut i: usize = 0;
                while i < self.raw_ranges.len()
                    invariant
                        i <= self.raw_ranges@.len(),
                        range == Some(span),
                        forall|k: int|
                            0 <= k < i ==> !((#[trigger] self.raw_ranges@[k]).file == span.file
                                && self.raw_ranges@[k].start <= span.start && span.end
                                <= self.raw_ranges@[k].end),
                    decreases self.raw_ranges@.len() - i,
                {
                    let raw: RawRange = self.raw_ranges[i];
                    if raw.file == span.file && raw.start <= span.start && span.end <= raw.end {
                        return true;
                    }
                    i = i + 1;
                }
                false
            },
            None => false,
        }
    }
}

/// Appends a hidden counter step for each captioned figure that was rasterized,
/// so that the numbers of later captions stay right.
pub fn emit_rasterized_figure_seqs(names: &Vec<String>, out: &mut Vec<Run>)
    ensures
        final(out)@.len() == old(out)@.len() + names@.len(),
        final(out)@.take(old(out)@.len() as int) == old(out)@,
        forall|i: int|
            0 <= i < names@.len() ==> is_hidden_seq(
                final(out)@[old(out)@.len() + i],
                (#[trigger] names@[i])@,
            ),
{
    let ghost before = out@;
    let mut i: usize = 0;
    while i < names.len()
        invariant
            i <= names@.len(),
            before == old(out)@,
            out@.len() == before.len() + i,
            out@.take(before.len() as int) == before,
            forall|k: int|
                0 <= k < i ==> is_hidden_seq(out@[before.len() + k], (#[trigger] names@[k])@),
        decreases names@.len() - i,
    {
        let mut instr: String = concat2(" SEQ ", names[i].as_str());
        instr.append(" \\h ");
        let ghost prior = out@;
        out.push(
            Run::Field(
                Field {
                    instr,
                    result: Vec::new(),
                    mode: FieldMode::Live,
                    display: FieldDisplay::Hidden,
                    cache_status: FieldCacheStatus::ConsumerRequired,
                },
            ),
        );
        assert(out@.take(before.len() as int) =~= before);
        i = i + 1;
    }
}

/// Content of a part never adds to the relationships of another one.
pub proof fn parts_keep_their_relationships(before: DocxCtx, after: DocxCtx)
    requires
        only_active_table_differs(before, after),
        before.part_rels is Some,
    ensures
        after.doc_rels == before.doc_rels,
        after.footnote_rels == before.footnote_rels,
        after.comment_rels == before.comment_rels,
{
}

} // verus!
