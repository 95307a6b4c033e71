//! What becomes of content whose preferred form is not available, and what is
//! reported about it.

use vstd::prelude::*;

use crate::content::Content;
use crate::convert::predicates::{invisible, is_empty_plain_box, is_invisible_noop, is_strut};
use crate::ctx::format::{TextStyle, resolved};
use crate::ctx::inline::LinkKind;
use crate::ctx::scope::{emit_rasterized_figure_seqs, is_hidden_seq, width_dxa};
use crate::ctx::state::DocxCtx;
use crate::dom::{Run, RunProps, Tag};
use crate::length::{Rel, abs_to_twip, twips};
use crate::props::{RunItem, copy_run_props, run_item, run_items};
use crate::report::{Decision, DecisionReason, LossSet, Representation};
use crate::text::{blank, is_blank, is_white, to_chars, white};

verus! {

/// The dimensions that a nested scope is narrowed to.
#[derive(Debug, Copy, Clone, PartialEq, Eq, Structural)]
pub struct InlineScope {
    /// The available width in twips; `None` leaves it.
    pub width_dxa: Option<i32>,
    /// The height base.
    pub height: Option<i64>,
}

/// A report about content that keeps its text but not its exact look.
pub open spec fn approximated(reason: DecisionReason, losses: LossSet, chars: usize) -> Decision {
    Decision {
        representation: Representation::Approximate,
        reason,
        losses,
        affected_text_chars: chars,
    }
}

/// A report about content that is gone.
pub open spec fn dropped(reason: DecisionReason, chars: usize) -> Decision {
    Decision {
        representation: Representation::Drop,
        reason,
        losses: LossSet::Drop,
        affected_text_chars: chars,
    }
}

/// What becomes of an element that has no form of its own.
#[derive(Debug, Copy, Clone, PartialEq, Eq, Structural)]
pub enum Fallback {
    /// Its image.
    Image,
    /// Nothing, and the lost geometry is reported.
    Approximate(Decision),
    /// Nothing, as it shows nothing anyway.
    Silent,
    /// Nothing, and its loss is reported.
    Ignored(Decision),
}

/// What becomes of an element that has no form of its own.
pub open spec fn fallback_of(c: Content, has_image: bool) -> Fallback {
    if has_image {
        Fallback::Image
    } else if is_strut(c) {
        Fallback::Approximate(
            approximated(DecisionReason::EmptyBoxGeometryApproximation, LossSet::VisualOnly, 0),
        )
    } else if invisible(c) {
        Fallback::Silent
    } else {
        Fallback::Ignored(dropped(DecisionReason::UnsupportedContent, 0))
    }
}

/// Decides what becomes of an element that has no form of its own, given whether
/// rasterizing it gave an image.
fn classify_fallback(c: &Content, has_image: bool) -> (r: Fallback)
    ensures
        r == fallback_of(*c, has_image),
{
    if has_image {
        Fallback::Image
    } else if is_empty_plain_box(c) {
        Fallback::Approximate(
            Decision {
                representation: Representation::Approximate,
                reason: DecisionReason::EmptyBoxGeometryApproximation,
                losses: LossSet::VisualOnly,
                affected_text_chars: 0,
            },
        )
    } else if is_invisible_noop(c) {
        Fallback::Silent
    } else {
        Fallback::Ignored(
            Decision {
                representation: Representation::Drop,
                reason: DecisionReason::UnsupportedContent,
                losses: LossSet::Drop,
                affected_text_chars: 0,
            },
        )
    }
}

/// Whether runs end in a hidden counter step for each figure and then the image.
pub open spec fn shows_raster(
    before: Seq<Run>,
    figures: Seq<String>,
    image: Seq<Run>,
    after: Seq<Run>,
) -> bool {
    &&& after.len() == before.len() + figures.len() + image.len()
    &&& after.take(before.len() as int) == before
    &&& forall|i: int|
        0 <= i < figures.len() ==> is_hidden_seq(
            after[before.len() + i],
            (#[trigger] figures[i])@,
        )
    &&& after.skip((before.len() + figures.len()) as int) == image
}

/// Adds a rasterized image behind a hidden counter step for each captioned figure
/// in it.
fn push_raster(image: Vec<Run>, figures: &Vec<String>, out: &mut Vec<Run>)
    ensures
        shows_raster(old(out)@, figures@, image@, final(out)@),
{
    emit_rasterized_figure_seqs(figures, out);
    let ghost stepped = out@;
    let mut image: Vec<Run> = image;
    let ghost shown = image@;
    out.append(&mut image);
    assert(out@.take(old(out)@.len() as int) =~= stepped.take(old(out)@.len() as int));
    assert(out@.skip((old(out)@.len() + figures@.len()) as int) =~= shown);
}

/// Adds the image of an element that has no form of its own, behind a hidden
/// counter step for each captioned figure in it. The counter steps stay where
/// there is no image. Returns what is to be reported.
pub fn rasterize_fallback(
    c: &Content,
    image: Vec<Run>,
    figures: &Vec<String>,
    out: &mut Vec<Run>,
) -> (r: Option<Decision>)
    ensures
        shows_raster(old(out)@, figures@, image@, final(out)@),
        r == (match fallback_of(*c, image@.len() > 0) {
            Fallback::Image | Fallback::Silent => None,
            Fallback::Approximate(decision) | Fallback::Ignored(decision) => Some(decision),
        }),
{
    let fallback: Fallback = classify_fallback(c, image.len() > 0);
    push_raster(image, figures, out);
    match fallback {
        Fallback::Image | Fallback::Silent => None,
        Fallback::Approximate(decision) | Fallback::Ignored(decision) => Some(decision),
    }
}

/// What is to be reported about an element that has neither a form of its own nor
/// an image.
pub fn report_unavailable(c: &Content) -> (r: Option<Decision>)
    ensures
        r == (match fallback_of(*c, false) {
            Fallback::Image | Fallback::Silent => None,
            Fallback::Approximate(decision) | Fallback::Ignored(decision) => Some(decision),
        }),
{
    match classify_fallback(c, false) {
        Fallback::Image | Fallback::Silent => None,
        Fallback::Approximate(decision) | Fallback::Ignored(decision) => Some(decision),
    }
}

impl DocxCtx {
    /// The dimensions of the container that placed content brings along.
    pub fn inline_place_body_dims(&self, width: Option<Rel>, height: Option<Rel>) -> (r: (
        Option<i64>,
        Option<i64>,
    ))
        ensures
            r.0 == (match width {
                Some(rel) => Some(rel.at(self.available_width)),
                None => None,
            }),
            r.1 == (match height {
                Some(rel) => Some(
                    rel.at(
                        match self.shape_height_base {
                            Some(base) => base,
                            None => self.available_height,
                        },
                    ),
                ),
                None => None,
            }),
    {
        let base: i64 = match self.shape_height_base {
            Some(base) => base,
            None => self.available_height,
        };
        let w: Option<i64> = match width {
            Some(rel) => Some(rel.relative_to(self.available_width)),
            None => None,
        };
        let h: Option<i64> = match height {
            Some(rel) => Some(rel.relative_to(base)),
            None => None,
        };
        (w, h)
    }

    /// The scope of placed content: its container's width where it narrows the
    /// available one, and its height.
    pub fn place_scope(&self, width: Option<i64>, height: Option<i64>) -> (r: InlineScope)
        ensures
            r.width_dxa == (match width {
                Some(w) => if 1 <= twips(w as int) < width_dxa(self.available_width) {
                    Some(twips(w as int))
                } else {
                    None
                },
                None => None,
            }),
            r.height == (if height is Some {
                height
            } else {
                self.shape_height_base
            }),
    {
        let available: i32 = self.available_width_dxa();
        let w: Option<i32> = match width {
            Some(w) => {
                let t: i32 = abs_to_twip(w);
                if 1 <= t && t < available {
                    Some(t)
                } else {
                    None
                }
            },
            None => None,
        };
        let h: Option<i64> = if height.is_some() {
            height
        } else {
            self.shape_height_base
        };
        InlineScope { width_dxa: w, height: h }
    }

    /// The scope of a box without a frame: its own dimensions where it has them.
    pub fn plain_box_scope(&self, width: Option<i64>, height: Option<i64>) -> (r: InlineScope)
        ensures
            r.width_dxa == (match width {
                Some(w) => Some(twips(w as int)),
                None => None,
            }),
            r.height == (if height is Some {
                height
            } else {
                self.shape_height_base
            }),
    {
        let w: Option<i32> = match width {
            Some(w) => Some(abs_to_twip(w)),
            None => None,
        };
        let h: Option<i64> = if height.is_some() {
            height
        } else {
            self.shape_height_base
        };
        InlineScope { width_dxa: w, height: h }
    }

    /// What becomes of content placed inside a line: its runs in the flow, else
    /// an image, else its text, else nothing. Returns what is to be reported.
    pub fn push_placed(
        &self,
        out: &mut Vec<Run>,
        runs: Vec<Run>,
        image: Vec<Run>,
        text: String,
        style: &TextStyle,
        inherited: &RunProps,
    ) -> (r: Option<Decision>)
        ensures
            if runs@.len() > 0 {
                &&& final(out)@ == old(out)@ + runs@
                &&& r == Some(
                    approximated(
                        DecisionReason::PositionedContentFlowFallback,
                        LossSet::VisualOnly,
                        0,
                    ),
                )
            } else if image@.len() > 0 {
                final(out)@ == old(out)@ + image@ && r is None
            } else if !is_blank(text@) {
                &&& run_items(final(out)@) == run_items(old(out)@).push(
                    RunItem::Text {
                        props: resolved(inherited@, *style, self.raw_depth > 0),
                        text: text@,
                    },
                )
                &&& final(out)@.drop_last() == old(out)@
                &&& r == Some(
                    approximated(
                        DecisionReason::PositionedContentPlainTextFallback,
                        LossSet::PlainTextFallback,
                        text@.len() as usize,
                    ),
                )
            } else {
                &&& final(out)@ == old(out)@
                &&& r == Some(dropped(DecisionReason::InlinePositionedContentUnavailable, 0))
            },
    {
        if runs.len() > 0 {
            let mut runs: Vec<Run> = runs;
            out.append(&mut runs);
            return Some(
                Decision {
                    representation: Representation::Approximate,
                    reason: DecisionReason::PositionedContentFlowFallback,
                    losses: LossSet::VisualOnly,
                    affected_text_chars: 0,
                },
            );
        }
        if image.len() > 0 {
            let mut image: Vec<Run> = image;
            out.append(&mut image);
            return None;
        }
        if !blank(text.as_str()) {
            let chars: usize = text.as_str().unicode_len();
            let inner: RunProps = copy_run_props(inherited);
            let props: RunProps = self.resolve_text_props(style, inner);
            out.push(Run::Text { props, text });
            assert(run_items(out@) =~= run_items(old(out)@).push(run_item(out@.last())));
            assert(out@.drop_last() =~= old(out)@);
            return Some(
                Decision {
                    representation: Representation::Approximate,
                    reason: DecisionReason::PositionedContentPlainTextFallback,
                    losses: LossSet::PlainTextFallback,
                    affected_text_chars: chars,
                },
            );
        }
        Some(
            Decision {
                representation: Representation::Drop,
                reason: DecisionReason::InlinePositionedContentUnavailable,
                losses: LossSet::Drop,
                affected_text_chars: 0,
            },
        )
    }

    /// What is reported about the body of a block that becomes part of a line;
    /// nothing where a table cell owns the block's geometry.
    pub fn plain_block_report(&self, chars: usize) -> (r: Option<Decision>)
        ensures
            r == (if self.cell_owns_inline_block_geometry {
                None
            } else {
                Some(
                    approximated(
                        DecisionReason::InlineBlockFlowApproximation,
                        LossSet::VisualOnly,
                        chars,
                    ),
                )
            }),
    {
        if self.cell_owns_inline_block_geometry {
            None
        } else {
            Some(
                Decision {
                    representation: Representation::Approximate,
                    reason: DecisionReason::InlineBlockFlowApproximation,
                    losses: LossSet::VisualOnly,
                    affected_text_chars: chars,
                },
            )
        }
    }

    /// Puts the tags of hidden content aside; nothing else of it is kept.
    pub fn keep_hidden_tags(&mut self, tags: &Vec<Tag>)
        ensures
            final(self).deferred_tags@ == old(self).deferred_tags@ + tags@,
            *final(self) == (DocxCtx { deferred_tags: final(self).deferred_tags, ..*old(self) }),
    {
        let mut i: usize = 0;
        assert(old(self).deferred_tags@ + tags@.take(0) =~= old(self).deferred_tags@);
        while i < tags.len()
            invariant
                i <= tags@.len(),
                self.deferred_tags@ == old(self).deferred_tags@ + tags@.take(i as int),
                *self == (DocxCtx { deferred_tags: self.deferred_tags, ..*old(self) }),
            decreases tags@.len() - i,
        {
            self.deferred_tags.push(tags[i]);
            i = i + 1;
            assert(self.deferred_tags@ =~= old(self).deferred_tags@ + tags@.take(i as int));
        }
        assert(tags@.take(i as int) =~= tags@);
    }

    /// What becomes of a box that is drawn as an image: the image, with a hidden
    /// counter step for each captioned figure in it, or, when it is empty, its
    /// content; then the tags that rasterizing put aside since `mark` are dropped,
    /// as its content brings them again.
    pub fn box_image_or_content(
        &mut self,
        image: Vec<Run>,
        figures: &Vec<String>,
        mark: usize,
        out: &mut Vec<Run>,
    ) -> (content: bool)
        requires
            mark <= old(self).deferred_tags@.len(),
        ensures
            content == (image@.len() == 0),
            if content {
                final(out)@ == old(out)@
            } else {
                shows_raster(old(out)@, figures@, image@, final(out)@)
            },
            final(self).deferred_tags@ == (if content {
                old(self).deferred_tags@.take(mark as int)
            } else {
                old(self).deferred_tags@
            }),
            *final(self) == (DocxCtx { deferred_tags: final(self).deferred_tags, ..*old(self) }),
    {
        if image.len() == 0 {
            self.deferred_tags.truncate(mark);
            true
        } else {
            push_raster(image, figures, out);
            false
        }
    }
}

/// What is reported about a link to a located element: page numbers stay live.
pub fn link_report(kind: LinkKind) -> (r: Option<Decision>)
    ensures
        r == (match kind {
            LinkKind::Page => Some(
                Decision {
                    representation: Representation::Native,
                    reason: DecisionReason::NativePageReference,
                    losses: LossSet::Nothing,
                    affected_text_chars: 0,
                },
            ),
            _ => None,
        }),
{
    match kind {
        LinkKind::Page => Some(
            Decision {
                representation: Representation::Native,
                reason: DecisionReason::NativePageReference,
                losses: LossSet::Nothing,
                affected_text_chars: 0,
            },
        ),
        _ => None,
    }
}

/// The number of characters between the white space at both ends of a text.
pub open spec fn trimmed_len(s: Seq<char>) -> nat {
    if is_blank(s) {
        0
    } else {
        (last_visible(s, s.len() as int) - first_visible(s, 0) + 1) as nat
    }
}

/// The index of the first character from `i` on that is no white space, or the
/// length.
pub open spec fn first_visible(s: Seq<char>, i: int) -> int
    decreases s.len() - i,
{
    if 0 <= i < s.len() && is_white(s[i]) {
        first_visible(s, i + 1)
    } else {
        i
    }
}

/// The index of the last character among the first `n` that is no white space,
/// or -1.
pub open spec fn last_visible(s: Seq<char>, n: int) -> int
    decreases n,
{
    if n <= 0 {
        -1
    } else if is_white(s[n - 1]) {
        last_visible(s, n - 1)
    } else {
        n - 1
    }
}

/// Reports content that is gone after every form of it failed: its text counts
/// without the white space around it.
pub fn record_content_drop(text: &str, reason: DecisionReason) -> (r: Decision)
    ensures
        r == dropped(reason, trimmed_len(text@) as usize),
{
    let chars: Vec<char> = to_chars(text);
    let n: usize = chars.len();
    let mut from: usize = 0;
    while from < n && white(chars[from])
        invariant
            from <= n,
            n == chars@.len(),
            chars@ == text@,
            first_visible(text@, 0) == first_visible(text@, from as int),
            forall|k: int| 0 <= k < from ==> is_white(#[trigger] text@[k]),
        decreases n - from,
    {
        from = from + 1;
    }
    let mut count: usize = 0;
    if from < n {
        let mut to: usize = n;
        while to > from + 1 && white(chars[to - 1])
            invariant
                from < to <= n,
                n == chars@.len(),
                chars@ == text@,
                !is_white(text@[from as int]),
                last_visible(text@, n as int) == last_visible(text@, to as int),
            decreases to,
        {
            to = to - 1;
        }
        count = to - from;
        assert(!is_blank(text@)) by {
            assert(!is_white(text@[from as int]));
        }
    }
    Decision {
        representation: Representation::Drop,
        reason,
        losses: LossSet::Drop,
        affected_text_chars: count,
    }
}

/// The texts of elements, one after the other.
pub open spec fn texts_joined(texts: Seq<String>) -> Seq<char>
    decreases texts.len(),
{
    if texts.len() == 0 {
        Seq::empty()
    } else {
        texts_joined(texts.drop_last()) + texts.last()@
    }
}

/// The text of content: its own, or, where it depends on its context, that of the
/// elements it becomes. Text that is there is never given up for nothing.
pub fn resolved_plain_text(direct: String, contextual: bool, realized: &Vec<String>) -> (r:
    String)
    ensures
        r@ == (if contextual && texts_joined(realized@).len() > 0 {
            texts_joined(realized@)
        } else {
            direct@
        }),
{
    if !contextual {
        return direct;
    }
    let mut out: String = String::new();
    let mut i: usize = 0;
    while i < realized.len()
        invariant
            i <= realized.len(),
            out@ == texts_joined(realized@.take(i as int)),
        decreases realized.len() - i,
    {
        assert(realized@.take(i + 1).drop_last() =~= realized@.take(i as int));
        out.append(realized[i].as_str());
        i = i + 1;
    }
    assert(realized@.take(i as int) =~= realized@);
    if out.as_str().unicode_len() > 0 {
        out
    } else {
        direct
    }
}

} // verus!
