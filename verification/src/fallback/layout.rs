//! Layout attempts on paper and what becomes of their outcome. Lengths are in
//! millionths of a point.

use vstd::prelude::*;

use crate::content::{Class, Content, contains_class, holds_class};
use crate::ctx::scope::{active_table, media_target, only_active_table_differs};
use crate::ctx::state::{DocxCtx, REL_IMAGE};
use crate::document::parts::{note_locations, tag_locations};
use crate::dom::Tag;
use crate::fallback::text::{
    Frame, collect_frame_tags, frame_runs, frame_tags, frame_to_text, recovered,
};
use crate::rels::{RelMode, RelSpec, rel_id, rel_index, with_rel};
use crate::report::{Decision, DecisionReason, LossSet, Representation};

verus! {

/// The longest side of an image that is worth drawing: 8000 points.
pub const MAX_AXIS: i64 = 8_000_000_000;

/// A length, or `None` where it is not finite.
pub type Extent = Option<i64>;

/// The outcome of one layout attempt.
pub enum Attempt<T> {
    Laid(T),
    /// The layout reported this many errors.
    Errors(usize),
    /// The layout panicked.
    Panicked,
}

/// The kind of a diagnostic that is kept from the user.
#[derive(Debug, Copy, Clone, PartialEq, Eq, Structural)]
pub enum SuppressedKind {
    DelayedError,
    Warning,
    Error,
    Panic,
}

/// The same diagnostic several times.
pub open spec fn times(kind: SuppressedKind, n: nat) -> Seq<SuppressedKind> {
    Seq::new(n, |i: int| kind)
}

fn push_times(out: &mut Vec<SuppressedKind>, kind: SuppressedKind, n: usize)
    ensures
        final(out)@ == old(out)@ + times(kind, n as nat),
{
    let mut i: usize = 0;
    assert(out@ =~= old(out)@ + times(kind, 0));
    while i < n
        invariant
            i <= n,
            out@ == old(out)@ + times(kind, i as nat),
        decreases n - i,
    {
        out.push(kind);
        assert(out@ =~= old(out)@ + times(kind, (i + 1) as nat));
        i = i + 1;
    }
}

/// A layout attempt once it is over.
pub struct Settled<T> {
    pub frame: Option<T>,
    /// Whether the absence of a frame is a failure rather than emptiness.
    pub failed: bool,
    /// The diagnostics to keep from the user and to report.
    pub suppressed: Vec<SuppressedKind>,
    /// Whether to warn that the content could not be laid out.
    pub warn: bool,
}

/// Settles a layout attempt: best-effort content degrades on its own, and every
/// diagnostic of the attempt is reported instead of failing the export.
pub fn settle_layout<T>(attempt: Attempt<T>, delayed: usize, warnings: usize) -> (r: Settled<T>)
    ensures
        r.frame == (match attempt {
            Attempt::Laid(frame) => Some(frame),
            _ => None::<T>,
        }),
        r.failed == !(attempt is Laid),
        r.warn == (attempt is Panicked),
        r.suppressed@ == times(SuppressedKind::DelayedError, delayed as nat) + times(
            SuppressedKind::Warning,
            warnings as nat,
        ) + (match attempt {
            Attempt::Laid(_) => Seq::empty(),
            Attempt::Errors(n) => times(SuppressedKind::Error, n as nat),
            Attempt::Panicked => seq![SuppressedKind::Panic],
        }),
{
    let mut suppressed: Vec<SuppressedKind> = Vec::new();
    push_times(&mut suppressed, SuppressedKind::DelayedError, delayed);
    push_times(&mut suppressed, SuppressedKind::Warning, warnings);
    assert(suppressed@ =~= times(SuppressedKind::DelayedError, delayed as nat) + times(
        SuppressedKind::Warning,
        warnings as nat,
    ));
    match attempt {
        Attempt::Laid(frame) => {
            Settled { frame: Some(frame), failed: false, suppressed, warn: false }
        }
        Attempt::Errors(n) => {
            push_times(&mut suppressed, SuppressedKind::Error, n);
            Settled { frame: None, failed: true, suppressed, warn: false }
        }
        Attempt::Panicked => {
            suppressed.push(SuppressedKind::Panic);
            Settled { frame: None, failed: true, suppressed, warn: true }
        }
    }
}

/// Whether a size is finite and positive on both axes.
pub open spec fn usable(width: Extent, height: Extent) -> bool {
    (width matches Some(w) && w > 0) && (height matches Some(h) && h > 0)
}

/// Whether a size is finite and positive on both axes.
pub fn usable_size(width: Extent, height: Extent) -> (r: bool)
    ensures
        r == usable(width, height),
{
    match (width, height) {
        (Some(w), Some(h)) => w > 0 && h > 0,
        _ => false,
    }
}

/// The measured size of content, where it is usable.
pub fn measure(size: Option<(Extent, Extent)>) -> (r: Option<(i64, i64)>)
    ensures
        r == (match size {
            Some((Some(w), Some(h))) if w > 0 && h > 0 => Some((w, h)),
            _ => None,
        }),
{
    match size {
        Some((Some(w), Some(h))) => {
            if w > 0 && h > 0 {
                Some((w, h))
            } else {
                None
            }
        }
        _ => None,
    }
}

/// What is known of a frame before it is drawn: its size, and the size of its
/// ink.
#[derive(Debug, Copy, Clone)]
pub struct FrameFacts {
    pub width: Extent,
    pub height: Extent,
    pub ink: Option<(i64, i64)>,
}

/// Whether drawing a frame would allocate far too many pixels: content laid out
/// at an infinite height may keep a place of its page and leave a huge gap.
pub open spec fn pathological(facts: FrameFacts) -> bool {
    facts.ink matches Some((w, h)) && (w > MAX_AXIS || h > MAX_AXIS)
}

/// Whether drawing a frame would allocate far too many pixels.
pub fn pathological_raster_ink(facts: &FrameFacts) -> (r: bool)
    ensures
        r == pathological(*facts),
{
    match facts.ink {
        Some((w, h)) => w > MAX_AXIS || h > MAX_AXIS,
        None => false,
    }
}

/// The height at which content is laid out first: equations at the height of a
/// page, and everything else at an infinite height, so that tall content is whole.
pub fn first_raster_height(content: &Content, page: i64) -> (r: Extent)
    ensures
        r == (if holds_class(*content, Class::Equation) {
            Some(page)
        } else {
            None
        }),
{
    if contains_class(content, Class::Equation) {
        Some(page)
    } else {
        None
    }
}

/// Whether a frame can be drawn.
pub open spec fn drawable(frame: Option<FrameFacts>) -> bool {
    frame matches Some(facts) && usable(facts.width, facts.height) && !pathological(facts)
}

/// Which of the two layout attempts is drawn.
#[derive(Debug, Copy, Clone, PartialEq, Eq, Structural)]
pub enum RasterChoice {
    First,
    Retry,
    /// Neither; `failed` tells a failure from emptiness.
    Neither { failed: bool },
}

/// Whether the first attempt can be drawn; otherwise the content is laid out again
/// at the height of a page.
pub fn can_draw(frame: &Option<FrameFacts>) -> (r: bool)
    ensures
        r == drawable(*frame),
{
    match frame {
        Some(facts) => usable_size(facts.width, facts.height) && !pathological_raster_ink(facts),
        None => false,
    }
}

/// Chooses the attempt that is drawn. The retry is made where the first attempt
/// cannot be drawn.
pub fn choose_raster(
    first: &Option<FrameFacts>,
    first_failed: bool,
    retry: &Option<FrameFacts>,
    retry_failed: bool,
) -> (r: RasterChoice)
    ensures
        r == (if drawable(*first) {
            RasterChoice::First
        } else if drawable(*retry) {
            RasterChoice::Retry
        } else {
            RasterChoice::Neither { failed: first_failed || retry_failed }
        }),
{
    if can_draw(first) {
        RasterChoice::First
    } else if can_draw(retry) {
        RasterChoice::Retry
    } else {
        RasterChoice::Neither { failed: first_failed || retry_failed }
    }
}

/// The tags of a frame, where there is one.
pub open spec fn tags_in(frame: Option<&Frame>) -> Seq<Tag> {
    match frame {
        Some(frame) => frame_tags(frame.items@),
        None => Seq::empty(),
    }
}

/// The tags of the first attempt. They are kept whether or not it is drawn: an
/// element that is still changing may have a degenerate frame for a while.
pub fn raster_tags(first: Option<&Frame>) -> (r: Vec<Tag>)
    ensures
        r@ == tags_in(first),
{
    let mut tags: Vec<Tag> = Vec::new();
    if let Some(frame) = first {
        collect_frame_tags(frame, &mut tags);
    }
    assert(tags@ =~= tags_in(first));
    tags
}

/// A frame and its size.
#[derive(Copy, Clone)]
pub struct LaidOut<'a> {
    pub width: Extent,
    pub height: Extent,
    pub frame: &'a Frame,
}

/// The frame of a layout attempt whose size is usable.
pub open spec fn usable_part(laid: Option<LaidOut>) -> Option<&Frame> {
    match laid {
        Some(l) => if usable(l.width, l.height) {
            Some(l.frame)
        } else {
            None
        },
        None => None,
    }
}

/// The frame that text is recovered from: that of the first attempt with a usable
/// size.
pub open spec fn accepted<'a>(first: Option<LaidOut<'a>>, retry: Option<LaidOut<'a>>) -> Option<
    &'a Frame,
> {
    if usable_part(first) is Some {
        usable_part(first)
    } else {
        usable_part(retry)
    }
}

/// The frame of a first attempt whose size is not usable.
pub open spec fn rejected<'a>(first: Option<LaidOut<'a>>) -> Option<&'a Frame> {
    match first {
        Some(l) => if usable(l.width, l.height) {
            None
        } else {
            Some(l.frame)
        },
        None => None,
    }
}

fn usable_frame<'a>(laid: Option<LaidOut<'a>>) -> (r: Option<&'a Frame>)
    ensures
        r == usable_part(laid),
{
    match laid {
        Some(l) => {
            if usable_size(l.width, l.height) {
                Some(l.frame)
            } else {
                None
            }
        }
        None => None,
    }
}

/// A report about content that became an image.
pub open spec fn rasterized(reason: DecisionReason, chars: usize) -> Decision {
    Decision {
        representation: Representation::Raster,
        reason,
        losses: LossSet::Raster,
        affected_text_chars: chars,
    }
}

/// The relationship to an embedded image.
pub open spec fn image_rel(part_name: Seq<char>) -> RelSpec {
    RelSpec { ty: REL_IMAGE@, target: media_target(part_name), mode: RelMode::Internal }
}

/// Whether an image part is embedded: its relationship is among those of the
/// content being lowered, and the report counts the characters it shows.
pub open spec fn embedded(
    old: DocxCtx,
    new: DocxCtx,
    part_name: Seq<char>,
    reason: DecisionReason,
    text: Seq<char>,
    r: (String, Decision),
) -> bool {
    let rel = image_rel(part_name);
    &&& active_table(new) == with_rel(active_table(old), rel)
    &&& r.0@ == rel_id(rel_index(active_table(old), rel, 0))
    &&& r.1 == rasterized(reason, text.len() as usize)
}

impl DocxCtx {
    /// Recovers the text of content from its layout at an infinite height, or, where
    /// its size is not usable, from the one at the height of a page. The tags of an
    /// attempt whose size was not usable are kept if it was the first one.
    pub fn layout_fallback_text(&mut self, first: Option<LaidOut>, retry: Option<LaidOut>) -> (r:
        Option<String>)
        ensures
            final(self).deferred_tags@ == old(self).deferred_tags@ + tags_in(
                rejected(first),
            ) + tags_in(accepted(first, retry)),
            *final(self) == (DocxCtx {
                deferred_tags: final(self).deferred_tags,
                ..*old(self)
            }),
            match accepted(first, retry) {
                Some(frame) => {
                    let text = recovered(frame_runs(frame.items@, 0, 0));
                    if text.len() > 0 {
                        r matches Some(s) && s@ == text
                    } else {
                        r is None
                    }
                },
                None => r is None,
            },
    {
        let found: Option<&Frame> = match first {
            Some(laid) => {
                if usable_size(laid.width, laid.height) {
                    Some(laid.frame)
                } else {
                    collect_frame_tags(laid.frame, &mut self.deferred_tags);
                    usable_frame(retry)
                }
            }
            None => usable_frame(retry),
        };
        assert(found == accepted(first, retry));
        assert(self.deferred_tags@ =~= old(self).deferred_tags@ + tags_in(rejected(first)));
        match found {
            Some(frame) => {
                collect_frame_tags(frame, &mut self.deferred_tags);
                let text: String = frame_to_text(frame);
                if text.as_str().unicode_len() > 0 {
                    Some(text)
                } else {
                    None
                }
            }
            None => {
                assert(self.deferred_tags@ =~= old(self).deferred_tags@ + tags_in(rejected(first))
                    + tags_in(found));
                None
            }
        }
    }

    /// Keeps the tags of a frame that is used in another form than an image.
    pub fn defer_frame_tags(&mut self, frame: &Frame)
        ensures
            final(self).deferred_tags@ == old(self).deferred_tags@ + frame_tags(frame.items@),
            *final(self) == (DocxCtx {
                deferred_tags: final(self).deferred_tags,
                ..*old(self)
            }),
    {
        collect_frame_tags(frame, &mut self.deferred_tags);
    }

    /// Keeps the tags of a page background or foreground. It is repeated on every
    /// page of the layout but stands in the document once, so its locations are
    /// those of page furniture.
    pub fn keep_overlay_tags(&mut self, tags: &Vec<Tag>)
        ensures
            final(self).real_alias_locations@ == old(self).real_alias_locations@
                + tag_locations(tags@),
            final(self).deferred_tags@ == old(self).deferred_tags@ + tags@,
            *final(self) == (DocxCtx {
                real_alias_locations: final(self).real_alias_locations,
                deferred_tags: final(self).deferred_tags,
                ..*old(self)
            }),
    {
        note_locations(self, tags);
        let mut i: usize = 0;
        let ghost before = self.deferred_tags@;
        assert(before =~= before + tags@.take(0));
        while i < tags.len()
            invariant
                i <= tags.len(),
                before == old(self).deferred_tags@,
                self.deferred_tags@ == before + tags@.take(i as int),
                self.real_alias_locations@ == old(self).real_alias_locations@ + tag_locations(
                    tags@,
                ),
                *self == (DocxCtx {
                    real_alias_locations: self.real_alias_locations,
                    deferred_tags: self.deferred_tags,
                    ..*old(self)
                }),
            decreases tags.len() - i,
        {
            self.deferred_tags.push(tags[i]);
            assert(self.deferred_tags@ =~= before + tags@.take(i + 1));
            i = i + 1;
        }
        assert(tags@.take(i as int) =~= tags@);
    }

    /// Embeds an image part that shows text, and reports it.
    pub fn embed_raster(&mut self, part_name: &str, reason: DecisionReason, text: &str) -> (r: (
        String,
        Decision,
    ))
        requires
            active_table(*old(self)).len() < usize::MAX,
        ensures
            embedded(*old(self), *final(self), part_name@, reason, text@, r),
            only_active_table_differs(*old(self), *final(self)),
    {
        let chars: usize = text.unicode_len();
        let rel: String = self.add_image(part_name);
        (
            rel,
            Decision {
                representation: Representation::Raster,
                reason,
                losses: LossSet::Raster,
                affected_text_chars: chars,
            },
        )
    }

    /// Places a page background or foreground that was drawn before: its tags are
    /// kept and its image embedded once more.
    pub fn place_cached_overlay(&mut self, part_name: &str, text: &str, tags: &Vec<Tag>) -> (r: (
        String,
        Decision,
    ))
        requires
            active_table(*old(self)).len() < usize::MAX,
        ensures
            embedded(
                *old(self),
                *final(self),
                part_name@,
                DecisionReason::PageOverlayRasterFallback,
                text@,
                r,
            ),
            final(self).real_alias_locations@ == old(self).real_alias_locations@
                + tag_locations(tags@),
            final(self).deferred_tags@ == old(self).deferred_tags@ + tags@,
            only_active_table_differs(
                DocxCtx {
                    real_alias_locations: final(self).real_alias_locations,
                    deferred_tags: final(self).deferred_tags,
                    ..*old(self)
                },
                *final(self),
            ),
    {
        self.keep_overlay_tags(tags);
        self.embed_raster(part_name, DecisionReason::PageOverlayRasterFallback, text)
    }
}

} // verus!
