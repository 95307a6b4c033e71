//! The lowering of one inline element to runs.

use vstd::prelude::*;

use crate::content::{Class, Content, Kind, body, holds_class};
use crate::convert::canvas::{is_canvas_candidate, owns_placements};
use crate::convert::predicates::{
    body_extractable, body_inline_extractable, contains_place, extractable, is_framed,
    is_framed_container, owns_layout, peeled, placed_bodies_shape_only, placed_shapes_only,
    unwrap_sole_image,
};
use crate::ctx::bookmarks::{
    bookmarked, is_number_reference, number_bookmarked, number_start, text_of_runs,
};
use crate::ctx::fonts::{
    Fallback, Family, FontSpan, SpanLook, covers_text, font_spans, spans_view,
    split_by_font_coverage,
};
use crate::ctx::format::{
    HighlightPaint, TextStyle, UnderlineStroke, apply_highlight, highlight_color, highlighted,
    resolved, stroke_underline, underline_from_stroke,
};
use crate::ctx::scope::in_raw;
use crate::ctx::state::{DocxCtx, RawRange};
use crate::dom::{
    BreakKind, Field, FieldCacheStatus, FieldDisplay, FieldMode, Jc, Location, ParaBorder,
    ReviewCandidateKind, ReviewJoinId, ReviewOrigin, Run, RunProps, Span, Underline, VertAlign,
};
use crate::length::{round_div, round_div_i128};
use crate::props::{
    RunItem, RunLook, UnderlineLook, copy_run_props, opt_border, run_item, run_items,
    run_props_eq,
};
use crate::text::{concat2, push_char, to_chars};

verus! {

/// How an inline element is lowered.
#[derive(Debug, Copy, Clone, PartialEq, Eq, Structural)]
pub enum InlineRoute {
    Place,
    /// A canvas of placed content, if one drawing can hold it.
    Canvas,
    PageCounter,
    /// What another counter displays.
    Counter,
    Tag,
    Space,
    Text,
    HSpace,
    Linebreak,
    Parbreak,
    VSpace,
    SmartQuote,
    /// The body with formatting added.
    Formatted,
    /// The content inside a raw scope.
    Raw,
    Equation,
    Image,
    Reference,
    Footnote,
    /// A footnote inside a footnote: its text in its place.
    NestedFootnote,
    DirectLink,
    /// The body in the element's place.
    Unwrap,
    Layout,
    /// The body with the container's shading and border on every run.
    Framed,
    /// The body of a block without a frame.
    PlainBlock,
    /// A picture in a clipping frame, if the content is one.
    ClippedImage,
    /// A box without content: a shape if it shows.
    EmptyBox,
    /// A picture that takes the height of its box.
    SizedImage,
    /// The body of a box without a frame, within the box's dimensions.
    PlainBox,
    /// A box whose content is a canvas, if its frame shows that it belongs
    /// together.
    BoxCanvas,
    /// A box as an image, or its content where the image is empty.
    BoxImage,
    /// Nothing but the tags inside.
    Hide,
    Shape,
    Curve,
    Line,
    Move,
    Transformed,
    /// A composition of placed shapes, if one drawing can hold it.
    PlacedShapes,
    /// An image.
    Raster,
}

/// The attempts that did not succeed.
#[derive(Debug, Copy, Clone, PartialEq, Eq, Structural)]
pub struct InlineDeclined {
    pub canvas: bool,
    pub clipped: bool,
    pub box_canvas: bool,
    pub shape: bool,
    pub path: bool,
    pub transformed: bool,
}

/// What the frame of an inline container looks like.
#[derive(Debug, Copy, Clone, PartialEq, Eq, Structural)]
pub struct InlineFrame {
    /// Whether it has a flat fill or a border.
    pub painted: bool,
    /// Whether it clips its content.
    pub clips: bool,
}

/// How a box is lowered.
pub open spec fn box_route(c: Content, d: InlineDeclined) -> InlineRoute {
    match body(c) {
        None => InlineRoute::EmptyBox,
        Some(b) => if peeled(b).kind is Image && c.kind->fixed_height {
            InlineRoute::SizedImage
        } else if c.kind->Box_plain && extractable(b) && !holds_class(b, Class::BlockFlow) {
            InlineRoute::PlainBox
        } else if holds_class(b, Class::Place) && !d.box_canvas && (owns_placements(c)
            || owns_layout(c)) {
            InlineRoute::BoxCanvas
        } else {
            InlineRoute::BoxImage
        },
    }
}

/// How an element is lowered that may be drawn.
pub open spec fn drawn_route(c: Content, d: InlineDeclined) -> InlineRoute {
    if !d.shape {
        InlineRoute::Shape
    } else if c.kind is Curve && !d.path {
        InlineRoute::Curve
    } else if c.kind is Line && !d.path {
        InlineRoute::Line
    } else if c.kind is Move {
        InlineRoute::Move
    } else if (c.kind is Rotate || c.kind is Scale) && !d.transformed {
        InlineRoute::Transformed
    } else if (c.kind is Block || is_framed(c)) && !d.transformed && holds_class(c, Class::Place)
        && placed_shapes_only(c) {
        InlineRoute::PlacedShapes
    } else {
        InlineRoute::Raster
    }
}

/// How an element is lowered that may have a frame.
pub open spec fn framed_inline_route(
    c: Content,
    frame: InlineFrame,
    d: InlineDeclined,
) -> InlineRoute {
    let open = body(c) is Some && extractable(body(c)->0);
    if frame.painted && open {
        InlineRoute::Framed
    } else if c.kind is Block && c.kind->Block_plain && c.kind->Block_content && open
        && !holds_class(body(c)->0, Class::BlockFlow) {
        InlineRoute::PlainBlock
    } else if frame.clips && !d.clipped {
        InlineRoute::ClippedImage
    } else if c.kind is Box {
        box_route(c, d)
    } else {
        drawn_route(c, d)
    }
}

/// How an inline element is lowered.
pub open spec fn inline_route(
    c: Content,
    frame: InlineFrame,
    d: InlineDeclined,
    in_footnote: bool,
) -> InlineRoute {
    if (c.kind is Block || is_framed(c)) && !d.canvas && (owns_placements(c) || owns_layout(c)) {
        InlineRoute::Canvas
    } else {
        match c.kind {
            Kind::Place { .. } => InlineRoute::Place,
            Kind::Counter { page } => if page {
                InlineRoute::PageCounter
            } else {
                InlineRoute::Counter
            },
            Kind::Tag => InlineRoute::Tag,
            Kind::Space => InlineRoute::Space,
            Kind::Text { .. } => InlineRoute::Text,
            Kind::HSpace => InlineRoute::HSpace,
            Kind::Linebreak => InlineRoute::Linebreak,
            Kind::Parbreak => InlineRoute::Parbreak,
            Kind::VSpace => InlineRoute::VSpace,
            Kind::SmartQuote => InlineRoute::SmartQuote,
            Kind::Strong
            | Kind::Emph
            | Kind::Sub
            | Kind::Super
            | Kind::Underline
            | Kind::Strike
            | Kind::Highlight
            | Kind::Smallcaps => InlineRoute::Formatted,
            Kind::Raw { .. } | Kind::RawLine => InlineRoute::Raw,
            Kind::Equation { block: false } => InlineRoute::Equation,
            Kind::Image => InlineRoute::Image,
            Kind::Ref => InlineRoute::Reference,
            Kind::Footnote => if in_footnote {
                InlineRoute::NestedFootnote
            } else {
                InlineRoute::Footnote
            },
            Kind::DirectLink => InlineRoute::DirectLink,
            Kind::LinkMarker
            | Kind::PdfMarker
            | Kind::Artifact
            | Kind::GridCell
            | Kind::TableCell
            | Kind::Link => InlineRoute::Unwrap,
            Kind::Layout => InlineRoute::Layout,
            Kind::Hide => InlineRoute::Hide,
            _ => framed_inline_route(c, frame, d),
        }
    }
}

fn route_box(c: &Content, plain: bool, fixed_height: bool, d: InlineDeclined) -> (r: InlineRoute)
    requires
        c.kind == (Kind::Box { plain, fixed_height }),
    ensures
        r == box_route(*c, d),
{
    if c.children.len() == 0 {
        return InlineRoute::EmptyBox;
    }
    let b: &Content = &c.children[0];
    if unwrap_sole_image(b).is_some() && fixed_height {
        InlineRoute::SizedImage
    } else if plain && body_extractable(b) && body_inline_extractable(b) {
        InlineRoute::PlainBox
    } else if contains_place(b) && !d.box_canvas && is_canvas_candidate(c) {
        InlineRoute::BoxCanvas
    } else {
        InlineRoute::BoxImage
    }
}

fn route_drawn(c: &Content, d: InlineDeclined) -> (r: InlineRoute)
    ensures
        r == drawn_route(*c, d),
{
    if !d.shape {
        return InlineRoute::Shape;
    }
    match c.kind {
        Kind::Curve => {
            if !d.path {
                return InlineRoute::Curve;
            }
        },
        Kind::Line { .. } => {
            if !d.path {
                return InlineRoute::Line;
            }
        },
        Kind::Move => {
            return InlineRoute::Move;
        },
        Kind::Rotate | Kind::Scale => {
            if !d.transformed {
                return InlineRoute::Transformed;
            }
        },
        _ => {},
    }
    let container: bool = matches!(c.kind, Kind::Block { .. }) || is_framed_container(c);
    if container && !d.transformed && contains_place(c) && placed_bodies_shape_only(c) {
        InlineRoute::PlacedShapes
    } else {
        InlineRoute::Raster
    }
}

fn route_framed_inline(c: &Content, frame: InlineFrame, d: InlineDeclined) -> (r: InlineRoute)
    ensures
        r == framed_inline_route(*c, frame, d),
{
    let open: bool = c.children.len() > 0 && body_extractable(&c.children[0]);
    if frame.painted && open {
        return InlineRoute::Framed;
    }
    if let Kind::Block { plain, content } = c.kind {
        if plain && content && open && body_inline_extractable(&c.children[0]) {
            return InlineRoute::PlainBlock;
        }
    }
    if frame.clips && !d.clipped {
        return InlineRoute::ClippedImage;
    }
    if let Kind::Box { plain, fixed_height } = c.kind {
        route_box(c, plain, fixed_height, d)
    } else {
        route_drawn(c, d)
    }
}

/// Decides how an inline element is lowered, given the attempts that did not
/// succeed.
pub fn route_inline(
    c: &Content,
    frame: InlineFrame,
    d: InlineDeclined,
    in_footnote: bool,
) -> (r: InlineRoute)
    ensures
        r == inline_route(*c, frame, d, in_footnote),
{
    let container: bool = matches!(c.kind, Kind::Block { .. }) || is_framed_container(c);
    if container && !d.canvas && is_canvas_candidate(c) {
        return InlineRoute::Canvas;
    }
    match c.kind {
        Kind::Place { .. } => InlineRoute::Place,
        Kind::Counter { page } => if page {
            InlineRoute::PageCounter
        } else {
            InlineRoute::Counter
        },
        Kind::Tag => InlineRoute::Tag,
        Kind::Space => InlineRoute::Space,
        Kind::Text { .. } => InlineRoute::Text,
        Kind::HSpace => InlineRoute::HSpace,
        Kind::Linebreak => InlineRoute::Linebreak,
        Kind::Parbreak => InlineRoute::Parbreak,
        Kind::VSpace => InlineRoute::VSpace,
        Kind::SmartQuote => InlineRoute::SmartQuote,
        Kind::Strong
        | Kind::Emph
        | Kind::Sub
        | Kind::Super
        | Kind::Underline
        | Kind::Strike
        | Kind::Highlight
        | Kind::Smallcaps => InlineRoute::Formatted,
        Kind::Raw { .. } | Kind::RawLine => InlineRoute::Raw,
        Kind::Equation { block } => if block {
            route_framed_inline(c, frame, d)
        } else {
            InlineRoute::Equation
        },
        Kind::Image => InlineRoute::Image,
        Kind::Ref => InlineRoute::Reference,
        Kind::Footnote => if in_footnote {
            InlineRoute::NestedFootnote
        } else {
            InlineRoute::Footnote
        },
        Kind::DirectLink => InlineRoute::DirectLink,
        Kind::LinkMarker
        | Kind::PdfMarker
        | Kind::Artifact
        | Kind::GridCell
        | Kind::TableCell
        | Kind::Link => InlineRoute::Unwrap,
        Kind::Layout => InlineRoute::Layout,
        Kind::Hide => InlineRoute::Hide,
        _ => route_framed_inline(c, frame, d),
    }
}

/// Runs with text added: it joins a text run before it with the same formatting.
pub open spec fn joined(runs: Seq<RunItem>, props: RunLook, text: Seq<char>) -> Seq<RunItem> {
    if runs.len() > 0 && runs.last() is Text && runs.last()->props == props {
        runs.update(
            runs.len() - 1,
            RunItem::Text { props, text: runs.last()->text + text },
        )
    } else {
        runs.push(RunItem::Text { props, text })
    }
}

/// Formatting where raw text is not proofed.
pub open spec fn proofed(props: RunLook, raw: bool) -> RunLook {
    RunLook { no_proof: props.no_proof || raw, ..props }
}

/// The last character after a text.
pub open spec fn last_of(text: Seq<char>, before: Option<char>) -> Option<char> {
    if text.len() > 0 {
        Some(text.last())
    } else {
        before
    }
}

/// Runs under construction and the last character typed.
pub struct Typed {
    pub runs: Seq<RunItem>,
    pub last: Option<char>,
}

/// What has been typed after one more text.
pub open spec fn typed(t: Typed, props: RunLook, text: Seq<char>, raw: bool) -> Typed {
    Typed { runs: joined(t.runs, proofed(props, raw), text), last: last_of(text, t.last) }
}

/// What the state and the runs amount to.
pub open spec fn typing(ctx: DocxCtx, out: Seq<Run>) -> Typed {
    Typed { runs: run_items(out), last: ctx.last_char }
}

fn ends_alike(out: &Vec<Run>, props: &RunProps) -> (r: bool)
    ensures
        r == (run_items(out@).len() > 0 && run_items(out@).last() is Text && run_items(
            out@,
        ).last()->props == props@),
{
    let n: usize = out.len();
    if n == 0 {
        return false;
    }
    assert(run_items(out@).last() == run_item(out@[n - 1]));
    match &out[n - 1] {
        Run::Text { props: last, text: _ } => run_props_eq(last, props),
        _ => false,
    }
}

fn append_text(run: &mut Run, text: &str)
    requires
        *old(run) is Text,
    ensures
        run_item(*final(run)) == (RunItem::Text {
            props: run_item(*old(run))->props,
            text: run_item(*old(run))->text + text@,
        }),
{
    if let Run::Text { props: _, text: last } = run {
        last.append(text);
    }
}

/// Adds text to runs: it joins a text run before it with the same formatting.
pub(crate) fn join_text(out: &mut Vec<Run>, props: RunProps, text: String)
    ensures
        run_items(final(out)@) == joined(run_items(old(out)@), props@, text@),
{
    let ghost before = run_items(out@);
    if ends_alike(out, &props) {
        let n: usize = out.len();
        assert(before.last() == run_item(out@[n - 1]));
        append_text(&mut out[n - 1], text.as_str());
        assert(run_items(out@) =~= joined(before, props@, text@));
    } else {
        out.push(Run::Text { props, text });
        assert(run_items(out@) =~= before.push(RunItem::Text { props: props@, text: text@ }));
    }
}

fn without_proofing(props: RunProps, raw: bool) -> (r: RunProps)
    ensures
        r@ == proofed(props@, raw),
{
    let mut props: RunProps = props;
    props.no_proof = props.no_proof || raw;
    props
}

fn last_char_of(text: &str, before: Option<char>) -> (r: Option<char>)
    ensures
        r == last_of(text@, before),
{
    let chars: Vec<char> = to_chars(text);
    if chars.len() > 0 {
        Some(chars[chars.len() - 1])
    } else {
        before
    }
}

impl DocxCtx {
    /// Types text: it joins a text run before it with the same formatting. Raw
    /// text is not proofed.
    pub fn push_text(&mut self, out: &mut Vec<Run>, props: RunProps, text: String)
        ensures
            typing(*final(self), final(out)@) == typed(
                typing(*old(self), old(out)@),
                props@,
                text@,
                old(self).raw_depth > 0,
            ),
            *final(self) == (DocxCtx { last_char: final(self).last_char, ..*old(self) }),
    {
        let props: RunProps = without_proofing(props, self.raw_depth > 0);
        self.last_char = last_char_of(text.as_str(), self.last_char);
        join_text(out, props, text);
    }
}

/// A text element: its text in the case it is shown in, its style, where it
/// comes from and the fonts for it.
#[derive(Debug)]
pub struct TextItem {
    pub text: String,
    pub style: TextStyle,
    pub span: Span,
    pub range: Option<RawRange>,
    pub families: Vec<Family>,
    pub fallback: Fallback,
}

/// The formatting of one stretch of a text element.
pub open spec fn stretch_look(
    base: RunLook,
    origin: Option<ReviewOrigin>,
    font: Seq<char>,
) -> RunLook {
    RunLook {
        review_origin: origin,
        font: if font.len() > 0 {
            Some(font)
        } else {
            base.font
        },
        ..base
    }
}

/// What has been typed after the first `n` stretches of a text element.
pub open spec fn typed_spans(
    t: Typed,
    base: RunLook,
    origin: Option<ReviewOrigin>,
    spans: Seq<SpanLook>,
    raw: bool,
    n: int,
) -> Typed
    decreases n,
{
    if n <= 0 {
        t
    } else {
        typed(
            typed_spans(t, base, origin, spans, raw, n - 1),
            stretch_look(base, origin, spans[n - 1].font),
            spans[n - 1].text,
            raw,
        )
    }
}

/// The formatting of a text element.
pub open spec fn text_look(ctx: DocxCtx, item: TextItem, inherited: RunLook) -> RunLook {
    let base = resolved(inherited, item.style, ctx.raw_depth > 0);
    proofed(base, ctx.raw_depth > 0 || in_raw(ctx.raw_ranges@, item.range))
}

/// Whether a text element gets a review origin of its own: it is rendered in one
/// font and names its source.
pub open spec fn text_is_reviewed(item: TextItem) -> bool {
    font_spans(item.text@, item.families@, item.fallback).len() == 1 && !item.span.detached()
}

/// The review origin of a text element.
pub open spec fn text_origin(ctx: DocxCtx, item: TextItem, base: RunLook) -> Option<ReviewOrigin> {
    if text_is_reviewed(item) {
        Some(
            ReviewOrigin {
                join_id: ReviewJoinId(ctx.next_review_join_id),
                span: item.span,
                kind: ReviewCandidateKind::InlineText,
            },
        )
    } else {
        base.review_origin
    }
}

/// The next review identity after one was handed out.
pub open spec fn next_join(id: u64) -> u64 {
    if id < u64::MAX {
        (id + 1) as u64
    } else {
        u64::MAX
    }
}

fn stretch_props(base: &RunProps, origin: Option<ReviewOrigin>, font: String) -> (r: RunProps)
    ensures
        r@ == stretch_look(base@, origin, font@),
{
    let mut props: RunProps = copy_run_props(base);
    props.review_origin = origin;
    if font.as_str().unicode_len() > 0 {
        props.font = Some(font);
    }
    props
}

impl DocxCtx {
    /// Types a text element: in stretches of one font each.
    pub fn type_text(&mut self, out: &mut Vec<Run>, inherited: &RunProps, item: &TextItem)
        requires
            covers_text(item.families@, item.fallback, item.text@.len() as int),
        ensures
            ({
                let base = text_look(*old(self), *item, inherited@);
                let spans = font_spans(item.text@, item.families@, item.fallback);
                typing(*final(self), final(out)@) == typed_spans(
                    typing(*old(self), old(out)@),
                    base,
                    text_origin(*old(self), *item, base),
                    spans,
                    old(self).raw_depth > 0,
                    spans.len() as int,
                )
            }),
            *final(self) == (DocxCtx {
                last_char: final(self).last_char,
                next_review_join_id: if text_is_reviewed(*item) {
                    next_join(old(self).next_review_join_id)
                } else {
                    old(self).next_review_join_id
                },
                ..*old(self)
            }),
    {
        let inner: RunProps = copy_run_props(inherited);
        let base: RunProps = self.resolve_text_props(&item.style, inner);
        let raw: bool = self.span_is_raw(item.range);
        let base: RunProps = without_proofing(base, raw);
        let ghost look = text_look(*old(self), *item, inherited@);
        assert(base@ == look);
        let spans: Vec<FontSpan> = split_by_font_coverage(
            item.text.as_str(),
            &item.families,
            &item.fallback,
        );
        let ghost all = spans_view(spans@);
        assert(all.len() == spans@.len());
        let origin: Option<ReviewOrigin> = if spans.len() == 1 && !item.span.is_detached() {
            Some(self.review_origin(item.span, ReviewCandidateKind::InlineText))
        } else {
            base.review_origin
        };
        let ghost start = typing(*old(self), old(out)@);
        let ghost deep = old(self).raw_depth > 0;
        let ghost mid = *self;
        let ghost listed = spans@;
        for span in it: spans
            invariant
                it.seq() == listed,
                all == spans_view(listed),
                base@ == look,
                deep == (self.raw_depth > 0),
                typing(*self, out@) == typed_spans(
                    start,
                    look,
                    origin,
                    all,
                    deep,
                    it.index() as int,
                ),
                *self == (DocxCtx { last_char: self.last_char, ..mid }),
        {
            assert(all[it.index() as int] == (SpanLook { font: span.font@, text: span.text@ }));
            let props: RunProps = stretch_props(&base, origin, span.font);
            self.push_text(out, props, span.text);
        }
    }

    /// Types a space.
    pub fn type_space(&mut self, out: &mut Vec<Run>, props: &RunProps)
        ensures
            typing(*final(self), final(out)@) == typed(
                typing(*old(self), old(out)@),
                props@,
                " "@,
                old(self).raw_depth > 0,
            ),
            *final(self) == (DocxCtx { last_char: final(self).last_char, ..*old(self) }),
    {
        let copy: RunProps = copy_run_props(props);
        self.push_text(out, copy, " ".to_owned());
    }

    /// Types a quotation mark, or any text given as it is, in a style.
    pub fn type_styled(
        &mut self,
        out: &mut Vec<Run>,
        inherited: &RunProps,
        style: &TextStyle,
        text: String,
    )
        ensures
            typing(*final(self), final(out)@) == typed(
                typing(*old(self), old(out)@),
                resolved(inherited@, *style, old(self).raw_depth > 0),
                text@,
                old(self).raw_depth > 0,
            ),
            *final(self) == (DocxCtx { last_char: final(self).last_char, ..*old(self) }),
    {
        let inner: RunProps = copy_run_props(inherited);
        let props: RunProps = self.resolve_text_props(style, inner);
        self.push_text(out, props, text);
    }

    /// Adds horizontal space: nothing for none, a tab that fills the line for a
    /// fraction, and else about as many spaces.
    pub fn type_hspace(&mut self, out: &mut Vec<Run>, props: &RunProps, amount: HAmount)
        ensures
            match amount {
                HAmount::Zero => *final(self) == *old(self) && final(out)@ == old(out)@,
                HAmount::Fraction => *final(self) == *old(self) && final(out)@ == old(
                    out,
                )@.push(Run::FillTab),
                HAmount::Length(length) => {
                    &&& typing(*final(self), final(out)@) == typed(
                        typing(*old(self), old(out)@),
                        props@,
                        spaces(space_count(length) as nat),
                        old(self).raw_depth > 0,
                    )
                    &&& *final(self) == (DocxCtx { last_char: final(self).last_char, ..*old(self) })
                },
            },
    {
        match amount {
            HAmount::Zero => {},
            HAmount::Fraction => out.push(Run::FillTab),
            HAmount::Length(length) => {
                let copy: RunProps = copy_run_props(props);
                let text: String = repeat_space(count_spaces(length));
                self.push_text(out, copy, text);
            },
        }
    }

    /// Adds a line break. A generated one, which names no source, is structure.
    pub fn push_linebreak(&mut self, out: &mut Vec<Run>, span: Span)
        ensures
            final(out)@ == old(out)@.push(
                Run::Break {
                    kind: if span.detached() {
                        BreakKind::Structure
                    } else {
                        BreakKind::Authored
                    },
                },
            ),
            *final(self) == (DocxCtx { last_char: None, ..*old(self) }),
    {
        let kind: BreakKind = if span.is_detached() {
            BreakKind::Structure
        } else {
            BreakKind::Authored
        };
        out.push(Run::Break { kind });
        self.last_char = None;
    }

    /// Adds the line break that stands for a paragraph break where there are only
    /// runs.
    pub fn push_separation(&mut self, out: &mut Vec<Run>)
        ensures
            final(out)@ == old(out)@.push(Run::Break { kind: BreakKind::Structure }),
            *final(self) == (DocxCtx { last_char: None, ..*old(self) }),
    {
        out.push(Run::Break { kind: BreakKind::Structure });
        self.last_char = None;
    }

    /// Adds the line break that stands for vertical space where there are only
    /// runs; no space needs none.
    pub fn push_vspace(&mut self, out: &mut Vec<Run>, zero: bool)
        ensures
            if zero {
                final(out)@ == old(out)@ && *final(self) == *old(self)
            } else {
                &&& final(out)@ == old(out)@.push(Run::Break { kind: BreakKind::Structure })
                &&& *final(self) == (DocxCtx { last_char: None, ..*old(self) })
            },
    {
        if !zero {
            self.push_separation(out);
        }
    }

    /// The formatting of the body of a formatting element. All but small
    /// capitals are review candidates.
    pub fn formatted_props(&mut self, props: &RunProps, wrapper: &Wrapper, span: Span) -> (r:
        RunProps)
        ensures
            r@ == wrapped(
                props@,
                *wrapper,
                ReviewOrigin {
                    join_id: ReviewJoinId(old(self).next_review_join_id),
                    span,
                    kind: ReviewCandidateKind::InlineText,
                },
            ),
            *final(self) == (DocxCtx {
                next_review_join_id: if *wrapper is Smallcaps {
                    old(self).next_review_join_id
                } else {
                    next_join(old(self).next_review_join_id)
                },
                ..*old(self)
            }),
    {
        let mut p: RunProps = copy_run_props(props);
        if let Wrapper::Smallcaps = wrapper {
            apply_wrapper(&mut p, wrapper);
            return p;
        }
        let origin: ReviewOrigin = self.review_origin(span, ReviewCandidateKind::InlineText);
        if let Wrapper::Highlight(paint) = wrapper {
            set_origin(&mut p, origin);
            apply_highlight(&mut p, *paint);
            return p;
        }
        apply_wrapper(&mut p, wrapper);
        set_origin(&mut p, origin);
        p
    }

    /// The formatting of the children of a link: a review candidate of its own.
    pub fn link_props(&mut self, props: &RunProps, span: Span) -> (r: RunProps)
        ensures
            r@ == (RunLook {
                review_origin: Some(
                    ReviewOrigin {
                        join_id: ReviewJoinId(old(self).next_review_join_id),
                        span,
                        kind: ReviewCandidateKind::InlineText,
                    },
                ),
                ..props@
            }),
            *final(self) == (DocxCtx {
                next_review_join_id: next_join(old(self).next_review_join_id),
                ..*old(self)
            }),
    {
        let mut p: RunProps = copy_run_props(props);
        let origin: ReviewOrigin = self.review_origin(span, ReviewCandidateKind::InlineText);
        set_origin(&mut p, origin);
        p
    }

    /// Adds the live page number. The first one in a part decides the alignment
    /// of the paragraph that owns it.
    pub fn push_page_counter(
        &mut self,
        out: &mut Vec<Run>,
        inherited: &RunProps,
        style: &TextStyle,
        jc: Option<Jc>,
        cache: String,
    )
        ensures
            final(out)@.len() == old(out)@.len() + 1,
            final(out)@.drop_last() == old(out)@,
            is_live_field(
                final(out)@.last(),
                " PAGE "@,
                seq![
                    RunItem::Text {
                        props: resolved(inherited@, *style, old(self).raw_depth > 0),
                        text: if cache@.len() == 0 {
                            "1"@
                        } else {
                            cache@
                        },
                    },
                ],
            ),
            *final(self) == (DocxCtx {
                page_counter_paragraph_alignment: if old(
                    self,
                ).page_counter_paragraph_alignment is None {
                    jc
                } else {
                    old(self).page_counter_paragraph_alignment
                },
                ..*old(self)
            }),
    {
        if self.page_counter_paragraph_alignment.is_none() {
            self.page_counter_paragraph_alignment = jc;
        }
        let text: String = if cache.as_str().unicode_len() == 0 {
            "1".to_owned()
        } else {
            cache
        };
        let inner: RunProps = copy_run_props(inherited);
        let props: RunProps = self.resolve_text_props(style, inner);
        let mut result: Vec<Run> = Vec::new();
        result.push(Run::Text { props, text });
        assert(run_items(result@) =~= seq![RunItem::Text { props: props@, text: text@ }]);
        out.push(live_field(" PAGE ".to_owned(), result));
        assert(out@.drop_last() =~= old(out)@);
    }

    /// Adds the runs of a link to a located element: a page reference becomes a
    /// live field, a reference gets a live number, and any other link shows as it
    /// is.
    pub fn push_direct_link(
        &mut self,
        out: &mut Vec<Run>,
        kind: LinkKind,
        loc: Location,
        runs: Vec<Run>,
    )
        requires
            kind == LinkKind::Page ==> old(self).can_bookmark(loc),
            kind == LinkKind::Reference ==> old(self).can_refer(loc, runs@),
            old(self).bookmarks_distinct(),
        ensures
            final(self).bookmarks_distinct(),
            match kind {
                LinkKind::Page => {
                    &&& final(out)@.len() == old(out)@.len() + 1
                    &&& final(out)@.drop_last() == old(out)@
                    &&& exists|id: u32, name: Seq<char>|
                        {
                            &&& #[trigger] bookmarked(*old(self), *final(self), loc, id, name)
                            &&& is_live_field(
                                final(out)@.last(),
                                " PAGEREF "@ + name + " \\h "@,
                                run_items(runs@),
                            )
                        }
                },
                LinkKind::Reference => {
                    &&& final(out)@.len() >= old(out)@.len()
                    &&& final(out)@.take(old(out)@.len() as int) == old(out)@
                    &&& referenced(
                        *old(self),
                        *final(self),
                        loc,
                        runs@,
                        final(out)@.skip(old(out)@.len() as int),
                    )
                },
                LinkKind::Plain => *final(self) == *old(self) && final(out)@ == old(out)@
                    + runs@,
            },
    {
        let ghost before = out@;
        match kind {
            LinkKind::Page => {
                let (_id, name) = self.add_bookmark(loc);
                let instr: String = page_instruction(name.as_str());
                out.push(live_field(instr, runs));
                assert(out@.drop_last() =~= before);
                assert(bookmarked(*old(self), *self, loc, _id, name@));
            },
            LinkKind::Reference => {
                let mut made: Vec<Run> = self.live_number_reference_runs(loc, runs);
                let ghost added = made@;
                out.append(&mut made);
                assert(out@.take(before.len() as int) =~= before);
                assert(out@.skip(before.len() as int) =~= added);
            },
            LinkKind::Plain => {
                let mut runs: Vec<Run> = runs;
                out.append(&mut runs);
            },
        }
    }
}

/// The amount of a horizontal space.
#[derive(Debug, Copy, Clone, PartialEq, Eq, Structural)]
pub enum HAmount {
    Zero,
    Fraction,
    Length(i64),
}

/// How many spaces stand for a length: one for each three and a half points, at
/// least one and at most forty.
pub open spec fn space_count(length: i64) -> int {
    let n = round_div(length as int, 3_500_000);
    if n < 1 {
        1
    } else if n > 40 {
        40
    } else {
        n
    }
}

/// A number of spaces.
pub open spec fn spaces(n: nat) -> Seq<char> {
    Seq::new(n, |i: int| ' ')
}

fn count_spaces(length: i64) -> (r: usize)
    ensures
        r == space_count(length),
        1 <= r <= 40,
{
    let n: i128 = round_div_i128(length as i128, 3_500_000);
    if n < 1 {
        1
    } else if n > 40 {
        40
    } else {
        n as usize
    }
}

fn repeat_space(n: usize) -> (r: String)
    ensures
        r@ == spaces(n as nat),
{
    let mut s: String = String::new();
    let mut i: usize = 0;
    assert(s@ =~= spaces(0));
    while i < n
        invariant
            i <= n,
            s@ == spaces(i as nat),
        decreases n - i,
    {
        push_char(&mut s, ' ');
        i = i + 1;
        assert(s@ =~= spaces(i as nat));
    }
    s
}

/// An element that formats its body.
#[derive(Debug)]
pub enum Wrapper {
    Strong,
    Emph,
    Sub,
    Super,
    /// An underline, with its own stroke where it has one.
    Underline(Option<UnderlineStroke>),
    Strike,
    Highlight(HighlightPaint),
    Smallcaps,
}

/// What a formatting element adds, apart from a highlight.
pub open spec fn with_wrapper(p: RunLook, wrapper: Wrapper) -> RunLook {
    RunLook {
        strong: p.strong || wrapper is Strong,
        bold: p.bold || wrapper is Strong,
        emphasis: p.emphasis || wrapper is Emph,
        italic: p.italic || wrapper is Emph,
        vert_align: if wrapper is Sub {
            Some(VertAlign::Sub)
        } else if wrapper is Super {
            Some(VertAlign::Super)
        } else {
            p.vert_align
        },
        underline: match wrapper {
            Wrapper::Underline(Some(stroke)) => Some(stroke_underline(stroke)),
            Wrapper::Underline(None) => Some(UnderlineLook { val: "single"@, color: None }),
            _ => p.underline,
        },
        strike: p.strike || wrapper is Strike,
        smallcaps: p.smallcaps || wrapper is Smallcaps,
        ..p
    }
}

/// Formatting of the body of a formatting element. All but small capitals are
/// review candidates.
pub open spec fn wrapped(p: RunLook, wrapper: Wrapper, origin: ReviewOrigin) -> RunLook {
    match wrapper {
        Wrapper::Smallcaps => with_wrapper(p, wrapper),
        Wrapper::Highlight(paint) => highlighted(
            RunLook { review_origin: Some(origin), ..p },
            highlight_color(paint),
        ),
        _ => RunLook { review_origin: Some(origin), ..with_wrapper(p, wrapper) },
    }
}

fn apply_wrapper(p: &mut RunProps, wrapper: &Wrapper)
    ensures
        final(p)@ == with_wrapper(old(p)@, *wrapper),
{
    let strong: bool = matches!(wrapper, Wrapper::Strong);
    let emph: bool = matches!(wrapper, Wrapper::Emph);
    let shift: Option<VertAlign> = match wrapper {
        Wrapper::Sub => Some(VertAlign::Sub),
        Wrapper::Super => Some(VertAlign::Super),
        _ => p.vert_align,
    };
    let underline: Option<Underline> = match wrapper {
        Wrapper::Underline(Some(stroke)) => Some(underline_from_stroke(stroke)),
        Wrapper::Underline(None) => Some(Underline::single()),
        _ => p.underline,
    };
    p.strong = p.strong || strong;
    p.bold = p.bold || strong;
    p.emphasis = p.emphasis || emph;
    p.italic = p.italic || emph;
    p.vert_align = shift;
    p.underline = underline;
    p.strike = p.strike || matches!(wrapper, Wrapper::Strike);
    p.smallcaps = p.smallcaps || matches!(wrapper, Wrapper::Smallcaps);
}

fn set_origin(p: &mut RunProps, origin: ReviewOrigin)
    ensures
        final(p)@ == (RunLook { review_origin: Some(origin), ..old(p)@ }),
{
    p.review_origin = Some(origin);
}

/// Whether a run is a live, visible field with the given result.
pub open spec fn is_live_field(run: Run, instr: Seq<char>, result: Seq<RunItem>) -> bool {
    match run {
        Run::Field(f) => {
            &&& f.instr@ == instr
            &&& run_items(f.result@) == result
            &&& f.mode == FieldMode::Live
            &&& f.display == FieldDisplay::Visible
            &&& f.cache_status == FieldCacheStatus::Resolved
        },
        _ => false,
    }
}

/// A live, visible field.
pub fn live_field(instr: String, result: Vec<Run>) -> (r: Run)
    ensures
        is_live_field(r, instr@, run_items(result@)),
        r matches Run::Field(f) && f.result == result,
{
    Run::Field(
        Field {
            instr,
            result,
            mode: FieldMode::Live,
            display: FieldDisplay::Visible,
            cache_status: FieldCacheStatus::Resolved,
        },
    )
}

/// The instruction of a page reference.
pub fn page_instruction(name: &str) -> (r: String)
    ensures
        r@ == " PAGEREF "@ + name@ + " \\h "@,
{
    let head: String = concat2(" PAGEREF ", name);
    concat2(head.as_str(), " \\h ")
}

/// What a link to a located element stands for.
#[derive(Debug, Copy, Clone, PartialEq, Eq, Structural)]
pub enum LinkKind {
    /// The number of the page it is on.
    Page,
    /// A reference to it.
    Reference,
    Plain,
}

/// Whether `out` is what a reference makes of runs, and `after` what it makes of
/// the bookmarks.
pub open spec fn referenced(
    before: DocxCtx,
    after: DocxCtx,
    loc: Location,
    runs: Seq<Run>,
    out: Seq<Run>,
) -> bool {
    if number_start(text_of_runs(runs)) == text_of_runs(runs).len() {
        out == runs && after == before
    } else {
        exists|id: u32, name: Seq<char>|
            {
                &&& #[trigger] number_bookmarked(before, after, loc, id, name)
                &&& is_number_reference(runs, out, name)
            }
    }
}

/// Formatting with the shading and the border of a container, where there is
/// none yet.
pub open spec fn framed_look(
    p: RunLook,
    fill: Option<[u8; 3]>,
    bdr: Option<ParaBorder>,
) -> RunLook {
    RunLook {
        shd_fill: if p.shd_fill is Some {
            p.shd_fill
        } else {
            fill
        },
        bdr: if p.bdr is Some {
            p.bdr
        } else {
            opt_border(bdr)
        },
        ..p
    }
}

/// Formatting of the runs in an inline container with a frame.
pub fn framed_props(props: &RunProps, fill: Option<[u8; 3]>, bdr: Option<ParaBorder>) -> (r:
    RunProps)
    ensures
        r@ == framed_look(props@, fill, bdr),
{
    let mut p: RunProps = copy_run_props(props);
    if p.shd_fill.is_none() {
        p.shd_fill = fill;
    }
    if p.bdr.is_none() {
        p.bdr = bdr;
    }
    p
}

} // verus!
