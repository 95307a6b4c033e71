//! Which mapper each kind of element goes to.

use vstd::prelude::*;

use crate::content::{Class, Content, Kind, holds_class, is_in_class, preorder, preorder_all};
use crate::convert::blocks::{BlockRoute, Declined, block_route};
use crate::convert::canvas::{all_placed, owns_placements, placements};
use crate::convert::predicates::{
    extractable, invisible, is_framed, is_shape, is_sole, is_strut, is_trivial, owns_layout,
    peeled, stays_inline,
};
use crate::ctx::children::{ChildRoute, child_route};
use crate::ctx::inline::{InlineDeclined, InlineFrame, InlineRoute, inline_route};

verus! {

/// Every kind of element that has a mapper of its own goes to that mapper, and
/// nothing else does, whatever was declined before.
pub proof fn kinds_go_to_their_mappers(c: Content, declined: Declined, suppress: bool)
    ensures
        block_route(c, declined, suppress) == BlockRoute::Tag <==> c.kind is Tag,
        block_route(c, declined, suppress) == BlockRoute::Raw <==> c.kind is Raw,
        block_route(c, declined, suppress) == BlockRoute::Pagebreak <==> c.kind is Pagebreak,
        block_route(c, declined, suppress) == BlockRoute::Par <==> c.kind is Par,
        block_route(c, declined, suppress) == BlockRoute::Heading <==> c.kind is Heading,
        block_route(c, declined, suppress) == BlockRoute::Title <==> c.kind is Title,
        block_route(c, declined, suppress) == BlockRoute::List <==> c.kind is List,
        block_route(c, declined, suppress) == BlockRoute::Enum <==> c.kind is Enum,
        block_route(c, declined, suppress) == BlockRoute::Terms <==> c.kind is Terms,
        block_route(c, declined, suppress) == BlockRoute::Table <==> c.kind is Table,
        block_route(c, declined, suppress) == BlockRoute::Grid <==> c.kind is Grid,
        block_route(c, declined, suppress) == BlockRoute::Stack <==> c.kind is Stack,
        block_route(c, declined, suppress) == BlockRoute::Columns <==> c.kind is Columns,
        block_route(c, declined, suppress) == BlockRoute::Layout <==> c.kind is Layout,
        block_route(c, declined, suppress) == BlockRoute::Outline <==> c.kind is Outline,
        block_route(c, declined, suppress) == BlockRoute::Equation <==> c.kind is Equation,
        block_route(c, declined, suppress) == BlockRoute::Figure <==> c.kind is Figure,
        block_route(c, declined, suppress) == BlockRoute::Caption <==> c.kind is FigureCaption,
        block_route(c, declined, suppress) == BlockRoute::Quote <==> c.kind is Quote,
        block_route(c, declined, suppress) == BlockRoute::Rule <==> c.kind == (Kind::Line {
            rule: true,
        }),
        block_route(c, declined, suppress) == BlockRoute::Colbreak <==> c.kind is Colbreak,
        block_route(c, declined, suppress) == BlockRoute::Place <==> c.kind is Place,
        block_route(c, declined, suppress) == BlockRoute::Unwrap <==> (c.kind is PdfMarker
            || c.kind is Artifact || c.kind is GridCell || c.kind is TableCell),
        block_route(c, declined, suppress) == BlockRoute::Nothing <==> (c.kind is Parbreak
            || c.kind is Flush),
        block_route(c, declined, suppress) == BlockRoute::Pad <==> (c.kind is Pad
            && c.children@.len() > 0 && extractable(c.children@[0])),
{
}

/// Whether elements of this kind have a mapper of their own.
pub open spec fn has_mapper(kind: Kind) -> bool {
    kind is Tag || kind is Raw || kind is Pagebreak || kind is Par || kind is Heading
        || kind is Title || kind is List || kind is Enum || kind is Terms || kind is Table
        || kind is Grid || kind is Stack || kind is Columns || kind is Layout || kind is Outline
        || kind is Equation || kind is Figure || kind is FigureCaption || kind is Quote
        || kind is Colbreak || kind is Place
}

/// Whether two kinds are the same but for their details.
pub open spec fn same_kind(a: Kind, b: Kind) -> bool {
    ||| a == b
    ||| a is Raw && b is Raw
    ||| a is Equation && b is Equation
    ||| a is Place && b is Place
}

/// Elements of two kinds that have mappers of their own never go the same way.
pub proof fn mappers_are_not_shared(
    a: Content,
    b: Content,
    declined_a: Declined,
    declined_b: Declined,
    suppress_a: bool,
    suppress_b: bool,
)
    requires
        has_mapper(a.kind),
        has_mapper(b.kind),
    ensures
        block_route(a, declined_a, suppress_a) == block_route(b, declined_b, suppress_b)
            <==> same_kind(a.kind, b.kind),
{
}

/// An attempt that was declined is not made again, and an element never runs out
/// of routes: a container with a frame ends as an image where its content will be
/// centered and as a text box otherwise, a block as a block or an image, and
/// anything else as a paragraph of its own.
pub proof fn declined_attempts_are_not_repeated(c: Content, declined: Declined, suppress: bool)
    ensures
        declined.canvas ==> block_route(c, declined, suppress) != BlockRoute::Canvas,
        declined.shapes ==> block_route(c, declined, suppress) != BlockRoute::PlacedShapes,
        declined.framed ==> block_route(c, declined, suppress) != BlockRoute::Framed,
        block_route(c, declined, suppress) == BlockRoute::Canvas || block_route(
            c,
            declined,
            suppress,
        ) == BlockRoute::PlacedShapes ==> c.kind is Block || c.kind is Box || c.kind is Rect
            || c.kind is Square,
        c.kind is Rect || c.kind is Square || (c.kind is Box && !c.kind->fixed_height
            && c.children@.len() > 0) ==> {
            &&& declined == (Declined { canvas: true, shapes: true, framed: false })
                ==> block_route(c, declined, suppress) == BlockRoute::Framed
            &&& declined == (Declined { canvas: true, shapes: true, framed: true }) && suppress
                ==> block_route(c, declined, suppress) == BlockRoute::FramedImage
            &&& declined == (Declined { canvas: true, shapes: true, framed: true }) && !suppress
                ==> block_route(c, declined, suppress) == BlockRoute::TextBox
        },
        c.kind is Block && declined.canvas && declined.shapes ==> block_route(
            c,
            declined,
            suppress,
        ) == (if c.kind->content {
            BlockRoute::Block
        } else {
            BlockRoute::BlockImage
        }),
        block_route(c, declined, suppress) == BlockRoute::Block || block_route(
            c,
            declined,
            suppress,
        ) == BlockRoute::BlockImage ==> c.kind is Block,
        block_route(c, declined, suppress) == BlockRoute::Framed || block_route(
            c,
            declined,
            suppress,
        ) == BlockRoute::FramedImage || block_route(c, declined, suppress) == BlockRoute::TextBox
            ==> c.kind is Box || c.kind is Rect || c.kind is Square,
        block_route(c, declined, suppress) == BlockRoute::Strut ==> c.kind is Box
            && c.children@.len() == 0,
        c.kind is Text || c.kind is Space || c.kind is Linebreak || c.kind is SmartQuote
            || c.kind is HSpace || c.kind is VSpace || c.kind is Strong || c.kind is Emph
            || c.kind is Sub || c.kind is Super || c.kind is Underline || c.kind is Strike
            || c.kind is Highlight || c.kind is Smallcaps || c.kind is Link || c.kind is DirectLink
            || c.kind is LinkMarker || c.kind is Ref || c.kind is Image || c.kind is Hide
            || c.kind is Counter || c.kind is RawLine || c.kind is Footnote || c.kind is Ellipse
            || c.kind is Circle || c.kind is Polygon || c.kind is Curve || c.kind is Align
            || c.kind is Move || c.kind is Rotate || c.kind is Scale || c.kind is Skew
            || c.kind is Context || c.kind is Sequence || c.kind is Styled || c.kind is Other
            || c.kind is CurveCommand || c.kind == (Kind::Line { rule: false }) ==> block_route(
            c,
            declined,
            suppress,
        ) == BlockRoute::Inline,
{
}

/// Every kind of inline element goes its own way, whatever its frame and whatever
/// was declined before.
pub proof fn inline_kinds_go_to_their_mappers(
    c: Content,
    frame: InlineFrame,
    d: InlineDeclined,
    in_footnote: bool,
)
    ensures
        inline_route(c, frame, d, in_footnote) == InlineRoute::Place <==> c.kind is Place,
        inline_route(c, frame, d, in_footnote) == InlineRoute::PageCounter <==> c.kind == (
        Kind::Counter { page: true }),
        inline_route(c, frame, d, in_footnote) == InlineRoute::Counter <==> c.kind == (
        Kind::Counter { page: false }),
        inline_route(c, frame, d, in_footnote) == InlineRoute::Tag <==> c.kind is Tag,
        inline_route(c, frame, d, in_footnote) == InlineRoute::Space <==> c.kind is Space,
        inline_route(c, frame, d, in_footnote) == InlineRoute::Text <==> c.kind is Text,
        inline_route(c, frame, d, in_footnote) == InlineRoute::HSpace <==> c.kind is HSpace,
        inline_route(c, frame, d, in_footnote) == InlineRoute::Linebreak <==> c.kind is Linebreak,
        inline_route(c, frame, d, in_footnote) == InlineRoute::Parbreak <==> c.kind is Parbreak,
        inline_route(c, frame, d, in_footnote) == InlineRoute::VSpace <==> c.kind is VSpace,
        inline_route(c, frame, d, in_footnote) == InlineRoute::SmartQuote
            <==> c.kind is SmartQuote,
        inline_route(c, frame, d, in_footnote) == InlineRoute::Formatted <==> (c.kind is Strong
            || c.kind is Emph || c.kind is Sub || c.kind is Super || c.kind is Underline
            || c.kind is Strike || c.kind is Highlight || c.kind is Smallcaps),
        inline_route(c, frame, d, in_footnote) == InlineRoute::Raw <==> (c.kind is Raw
            || c.kind is RawLine),
        inline_route(c, frame, d, in_footnote) == InlineRoute::Equation <==> c.kind == (
        Kind::Equation { block: false }),
        inline_route(c, frame, d, in_footnote) == InlineRoute::Image <==> c.kind is Image,
        inline_route(c, frame, d, in_footnote) == InlineRoute::Reference <==> c.kind is Ref,
        inline_route(c, frame, d, in_footnote) == InlineRoute::Footnote <==> (c.kind is Footnote
            && !in_footnote),
        inline_route(c, frame, d, in_footnote) == InlineRoute::NestedFootnote <==> (
        c.kind is Footnote && in_footnote),
        inline_route(c, frame, d, in_footnote) == InlineRoute::DirectLink
            <==> c.kind is DirectLink,
        inline_route(c, frame, d, in_footnote) == InlineRoute::Unwrap <==> (c.kind is LinkMarker
            || c.kind is PdfMarker || c.kind is Artifact || c.kind is GridCell
            || c.kind is TableCell || c.kind is Link),
        inline_route(c, frame, d, in_footnote) == InlineRoute::Layout <==> c.kind is Layout,
        inline_route(c, frame, d, in_footnote) == InlineRoute::Hide <==> c.kind is Hide,
{
}

/// An attempt on inline content that was declined is not made again. What can
/// neither be drawn nor framed ends as an image, and a box as a box.
pub proof fn declined_inline_attempts_are_not_repeated(
    c: Content,
    frame: InlineFrame,
    d: InlineDeclined,
    in_footnote: bool,
)
    ensures
        ({
            let r = inline_route(c, frame, d, in_footnote);
            &&& d.canvas ==> r != InlineRoute::Canvas
            &&& d.clipped || !frame.clips ==> r != InlineRoute::ClippedImage
            &&& d.box_canvas ==> r != InlineRoute::BoxCanvas
            &&& d.shape ==> r != InlineRoute::Shape
            &&& d.path ==> r != InlineRoute::Curve && r != InlineRoute::Line
            &&& d.transformed ==> r != InlineRoute::Transformed && r != InlineRoute::PlacedShapes
            &&& r == InlineRoute::Framed ==> frame.painted && c.children@.len() > 0
            &&& r == InlineRoute::PlainBlock ==> c.kind == (Kind::Block {
                plain: true,
                content: true,
            })
            &&& r == InlineRoute::Curve ==> c.kind is Curve
            &&& r == InlineRoute::Line ==> c.kind is Line
            &&& r == InlineRoute::Move ==> c.kind is Move
            &&& r == InlineRoute::Transformed ==> c.kind is Rotate || c.kind is Scale
            &&& r == InlineRoute::Canvas || r == InlineRoute::PlacedShapes ==> c.kind is Block
                || c.kind is Box || c.kind is Rect || c.kind is Square
            &&& r == InlineRoute::EmptyBox ==> c.kind is Box && c.children@.len() == 0
            &&& r == InlineRoute::SizedImage || r == InlineRoute::PlainBox
                || r == InlineRoute::BoxCanvas || r == InlineRoute::BoxImage ==> c.kind is Box
                && c.children@.len() > 0
            &&& r == InlineRoute::SizedImage ==> c.kind->fixed_height && peeled(
                c.children@[0],
            ).kind is Image
            &&& r == InlineRoute::PlainBox ==> c.kind->Box_plain && extractable(c.children@[0])
            &&& c.kind is Curve && frame == (InlineFrame { painted: false, clips: false })
                && d.shape && !d.path ==> r == InlineRoute::Curve
            &&& c.kind is Line && frame == (InlineFrame { painted: false, clips: false })
                && d.shape && !d.path ==> r == InlineRoute::Line
            &&& c.kind is Move && frame == (InlineFrame { painted: false, clips: false })
                && d.shape ==> r == InlineRoute::Move
            &&& (c.kind is Rotate || c.kind is Scale) && frame == (InlineFrame {
                painted: false,
                clips: false,
            }) && d.shape && !d.transformed ==> r == InlineRoute::Transformed
            &&& (c.kind is Polygon || c.kind is Ellipse || c.kind is Circle) && frame == (
            InlineFrame { painted: false, clips: false }) ==> r == (if d.shape {
                InlineRoute::Raster
            } else {
                InlineRoute::Shape
            })
            &&& (c.kind is Box || c.kind is Rect || c.kind is Square || c.kind is Ellipse
                || c.kind is Circle) && d.canvas && frame.painted && c.children@.len() > 0
                && extractable(c.children@[0]) ==> r == InlineRoute::Framed
        }),
{
}

/// Among the children of a paragraph, tags and links go their own way; content
/// with a painted frame keeps the frame, and linked content its link.
pub proof fn children_go_to_their_mappers(c: Content, frame: InlineFrame, linked: bool)
    ensures
        child_route(c, frame, linked) == ChildRoute::Tag <==> c.kind is Tag,
        child_route(c, frame, linked) == ChildRoute::Link <==> c.kind is Link,
        child_route(c, frame, linked) == ChildRoute::DirectLink <==> c.kind is DirectLink,
        !(c.kind is Tag || c.kind is Link || c.kind is DirectLink) && frame.painted
            && c.children@.len() > 0 && extractable(c.children@[0]) <==> child_route(
            c,
            frame,
            linked,
        ) == ChildRoute::Framed,
        child_route(c, frame, linked) == ChildRoute::Linked ==> linked,
        linked ==> child_route(c, frame, linked) != ChildRoute::Inline && child_route(
            c,
            frame,
            linked,
        ) != ChildRoute::Placed,
        !linked && !frame.painted && c.kind is Place ==> child_route(c, frame, linked)
            == ChildRoute::Placed,
        child_route(c, frame, linked) == ChildRoute::Placed ==> c.kind is Place || c.kind is Box,
        !linked && !frame.painted && !(c.kind is Tag || c.kind is Link || c.kind is DirectLink
            || c.kind is Place || c.kind is Box) ==> child_route(c, frame, linked)
            == ChildRoute::Inline,
{
}

/// What an element is, kind by kind.
pub proof fn kinds_answer_for_themselves(c: Content)
    ensures
        is_framed(c) <==> c.kind is Box || c.kind is Rect || c.kind is Square,
        c.kind is Text || c.kind is Space || c.kind is Strong || c.kind is Emph || c.kind is Link
            || c.kind is Ref || c.kind is Image || c.kind is Linebreak || c.kind is SmartQuote
            || c.kind is HSpace || c.kind is Sub || c.kind is Super || c.kind is Underline
            || c.kind is Strike || c.kind is Highlight || c.kind is Smallcaps || c.kind is Hide
            || c.kind is Counter <==> stays_inline(c),
        has_mapper(c.kind) ==> !stays_inline(c),
        invisible(c) <==> c.kind is Parbreak || c.kind is VSpace || c.kind is Hide
            || c.kind is Flush || c.kind is PdfMarker,
        is_strut(c) ==> c.kind is Box && c.children@.len() == 0,
        owns_layout(c) ==> c.kind is Box,
        is_shape(c) ==> c.kind is Line || c.kind is Curve || c.kind is Polygon || ((c.kind is Rect
            || c.kind is Square || c.kind is Ellipse || c.kind is Circle) && c.children@.len()
            == 0),
        c.kind is Line || c.kind is Curve || c.kind is Polygon ==> is_shape(c),
        c.kind is Rect && c.children@.len() == 0 ==> is_shape(c),
        c.kind is List || c.kind is Enum || c.kind is Terms ==> is_in_class(c, Class::BlockFlow)
            && is_in_class(c, Class::Flowing) && is_in_class(c, Class::TextBoxUnsafe),
        c.kind is Table || c.kind is Grid ==> is_in_class(c, Class::BlockFlow) && is_in_class(
            c,
            Class::Flowing,
        ) && is_in_class(c, Class::TextBoxUnsafe),
        c.kind is Figure || c.kind is Heading || c.kind is Outline || c.kind is Stack
            || c.kind is Columns ==> is_in_class(c, Class::BlockFlow) && !is_in_class(
            c,
            Class::Flowing,
        ),
        c.kind is Figure || c.kind is Image || c.kind is Equation ==> is_in_class(
            c,
            Class::TextBoxUnsafe,
        ),
        c.kind is Text || c.kind is Space || c.kind is Strong || c.kind is Emph ==> !is_in_class(
            c,
            Class::BlockFlow,
        ) && !is_in_class(c, Class::Flowing) && !is_in_class(c, Class::TextBoxUnsafe),
        is_in_class(c, Class::Place) <==> c.kind is Place,
        is_in_class(c, Class::Footnote) <==> c.kind is Footnote,
        is_in_class(c, Class::Layout) <==> c.kind is Layout,
        is_in_class(c, Class::Context) <==> c.kind is Context,
        is_in_class(c, Class::Grid) <==> c.kind is Grid,
        is_in_class(c, Class::Figure) <==> c.kind is Figure,
        is_in_class(c, Class::Equation) <==> c.kind is Equation,
        is_in_class(c, Class::VisibleText) <==> c.kind == (Kind::Text { blank: false }),
        c.labelled ==> is_in_class(c, Class::Label),
{
}

proof fn lemma_preorder_all(s: Seq<Content>, x: Content)
    ensures
        preorder_all(s).contains(x) <==> exists|i: int|
            0 <= i < s.len() && preorder(#[trigger] s[i]).contains(x),
    decreases s.len(),
{
    if s.len() > 0 {
        let before = preorder_all(s.drop_last());
        let last = preorder(s.last());
        lemma_preorder_all(s.drop_last(), x);
        assert(preorder_all(s) == before + last);
        if preorder_all(s).contains(x) {
            let k = preorder_all(s).index_of(x);
            if k < before.len() {
                assert(before[k] == x);
                let i = choose|i: int|
                    0 <= i < s.drop_last().len() && preorder(#[trigger] s.drop_last()[i]).contains(
                        x,
                    );
                assert(s[i] == s.drop_last()[i]);
            } else {
                assert(last[k - before.len()] == x);
                assert(preorder(s[s.len() - 1]).contains(x));
            }
        }
        if exists|i: int| 0 <= i < s.len() && preorder(#[trigger] s[i]).contains(x) {
            let i = choose|i: int| 0 <= i < s.len() && preorder(#[trigger] s[i]).contains(x);
            if i < s.len() - 1 {
                assert(s.drop_last()[i] == s[i]);
                let k = before.index_of(x);
                assert((before + last)[k] == x);
            } else {
                let k = last.index_of(x);
                assert((before + last)[before.len() + k] == x);
            }
        }
    }
}

/// What an element holds, it holds itself or one of its children does.
pub proof fn classes_are_inherited(c: Content, class: Class)
    ensures
        is_in_class(c, class) ==> holds_class(c, class),
        forall|i: int|
            0 <= i < c.children@.len() && holds_class(#[trigger] c.children@[i], class)
                ==> holds_class(c, class),
        holds_class(c, class) && !is_in_class(c, class) ==> exists|i: int|
            0 <= i < c.children@.len() && holds_class(#[trigger] c.children@[i], class),
{
    let all = preorder(c);
    let below = preorder_all(c.children@);
    assert(all[0] == c);
    assert forall|i: int| 0 <= i < c.children@.len() && holds_class(
        #[trigger] c.children@[i],
        class,
    ) implies holds_class(c, class) by {
        let inner = preorder(c.children@[i]);
        let j = choose|j: int| 0 <= j < inner.len() && is_in_class(#[trigger] inner[j], class);
        lemma_preorder_all(c.children@, inner[j]);
        assert(inner.contains(inner[j]));
        let k = below.index_of(inner[j]);
        assert(all[k + 1] == inner[j]);
    }
    if holds_class(c, class) && !is_in_class(c, class) {
        let k = choose|k: int| 0 <= k < all.len() && is_in_class(#[trigger] all[k], class);
        assert(all[k] == below[k - 1]);
        assert(below.contains(all[k]));
        lemma_preorder_all(c.children@, all[k]);
        let i = choose|i: int|
            0 <= i < c.children@.len() && preorder(#[trigger] c.children@[i]).contains(all[k]);
        let j = preorder(c.children@[i]).index_of(all[k]);
        assert(is_in_class(preorder(c.children@[i])[j], class));
    }
}

/// Wrappers are peeled off: styles, and sequences around a single element besides
/// spaces, paragraph breaks and tags; anything else is its own core.
pub proof fn wrappers_are_peeled_off(c: Content, at: int)
    ensures
        !(c.kind is Styled) && !(c.kind is Sequence) ==> peeled(c) == c,
        c.kind is Styled && c.children@.len() > 0 ==> peeled(c) == peeled(c.children@[0]),
        c.kind is Sequence && 0 <= at < c.children@.len() && !is_trivial(c.children@[at]) && (
        forall|i: int|
            0 <= i < c.children@.len() && i != at ==> (#[trigger] c.children@[i]).kind is Space
                || c.children@[i].kind is Parbreak || c.children@[i].kind is Tag) ==> peeled(c)
            == peeled(c.children@[at]),
        is_trivial(c) <==> c.kind is Space || c.kind is Parbreak || c.kind is Tag,
{
    if c.kind is Sequence && 0 <= at < c.children@.len() && !is_trivial(c.children@[at]) && (
    forall|i: int|
        0 <= i < c.children@.len() && i != at ==> (#[trigger] c.children@[i]).kind is Space
            || c.children@[i].kind is Parbreak || c.children@[i].kind is Tag) {
        assert(is_sole(c.children@, at));
        let k = choose|k: int| is_sole(c.children@, k);
        assert(is_sole(c.children@, k));
        if k != at {
            assert(is_trivial(c.children@[k]));
        }
    }
}

/// A container owns a canvas exactly where all its content is placed, at least
/// twice, with a composition of shapes and something else among it.
pub proof fn canvases_mix_shapes_and_labels(c: Content)
    ensures
        owns_placements(c) ==> c.kind is Block || c.kind is Box || c.kind is Rect
            || c.kind is Square,
        owns_placements(c) ==> c.children@.len() > 0 && all_placed(c.children@[0]) && placements(
            c.children@[0],
        ).len() >= 2,
        owns_placements(c) ==> placements(c.children@[0]).contains(true) && placements(
            c.children@[0],
        ).contains(false),
        (c.kind is Box || c.kind is Rect || c.kind is Square) && c.children@.len() > 0
            && all_placed(c.children@[0]) && placements(c.children@[0]).len() >= 2 && placements(
            c.children@[0],
        ).contains(true) && placements(c.children@[0]).contains(false) ==> owns_placements(c),
        c.kind is Block && !c.kind->content ==> !owns_placements(c),
{
}

/// Placed content that does not float is placed, floating content and text are not,
/// and a sequence is where all its elements are.
pub proof fn only_placed_content_is_placed(c: Content)
    ensures
        c.kind == (Kind::Place { float: false }) ==> all_placed(c),
        c.kind == (Kind::Place { float: true }) ==> !all_placed(c),
        c.kind is Text || c.kind is Table || c.kind is Image || c.kind is Block || c.kind is Box
            ==> !all_placed(c),
        c.kind is Tag || c.kind is Space || c.kind is Parbreak ==> all_placed(c),
        c.kind is Sequence && all_placed(c) ==> forall|i: int|
            0 <= i < c.children@.len() ==> all_placed(#[trigger] c.children@[i]),
        c.kind is Sequence && (forall|i: int|
            0 <= i < c.children@.len() ==> all_placed(#[trigger] c.children@[i])) ==> all_placed(c),
{
}

} // verus!
