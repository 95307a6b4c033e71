//! Questions about realized content that decide how it is converted.

use vstd::prelude::*;

use crate::content::{
    Class, Content, Kind, body, contains_class, elements, holds_class, preorder, walk,
};
use crate::dom::Span;

verus! {

/// Whether an element stands for nothing on its own: a space, a paragraph break
/// or a tag.
pub open spec fn is_trivial(c: Content) -> bool {
    c.kind is Space || c.kind is Parbreak || c.kind is Tag
}

fn trivial(c: &Content) -> (r: bool)
    ensures
        r == is_trivial(*c),
{
    matches!(c.kind, Kind::Space | Kind::Parbreak | Kind::Tag)
}

/// Whether `at` is the index of the only child that is not trivial.
pub open spec fn is_sole(children: Seq<Content>, at: int) -> bool {
    &&& 0 <= at < children.len()
    &&& !is_trivial(children[at])
    &&& forall|i: int|
        0 <= i < children.len() && i != at ==> is_trivial(#[trigger] children[i])
}

fn find_sole(children: &Vec<Content>) -> (r: Option<usize>)
    ensures
        match r {
            Some(at) => is_sole(children@, at as int),
            None => forall|at: int| !is_sole(children@, at),
        },
{
    let mut found: Option<usize> = None;
    let mut i: usize = 0;
    while i < children.len()
        invariant
            i <= children@.len(),
            match found {
                Some(at) => {
                    &&& at < i
                    &&& !is_trivial(children@[at as int])
                    &&& forall|k: int|
                        0 <= k < i && k != at ==> is_trivial(#[trigger] children@[k])
                },
                None => forall|k: int| 0 <= k < i ==> is_trivial(#[trigger] children@[k]),
            },
        decreases children@.len() - i,
    {
        if !trivial(&children[i]) {
            if let Some(at) = found {
                assert forall|k: int| !is_sole(children@, k) by {
                    if is_sole(children@, k) {
                        if k != i {
                            assert(is_trivial(children@[i as int]));
                        }
                        if k != at {
                            assert(is_trivial(children@[at as int]));
                        }
                    }
                }
                return None;
            }
            found = Some(i);
        }
        i = i + 1;
    }
    proof {
        if found is None {
            assert forall|k: int| !is_sole(children@, k) by {
                if 0 <= k < children@.len() {
                    assert(is_trivial(children@[k]));
                }
            }
        }
    }
    found
}

/// What is left of content once style wrappers and sequences of one element are
/// taken off.
pub open spec fn peeled(c: Content) -> Content
    decreases c,
{
    match c.kind {
        Kind::Styled => if c.children@.len() > 0 {
            peeled(c.children@[0])
        } else {
            c
        },
        Kind::Sequence => if exists|at: int| is_sole(c.children@, at) {
            let at = choose|at: int| is_sole(c.children@, at);
            if 0 <= at < c.children@.len() {
                peeled(c.children@[at])
            } else {
                c
            }
        } else {
            c
        },
        _ => c,
    }
}

proof fn lemma_sole_unique(children: Seq<Content>, a: int, b: int)
    requires
        is_sole(children, a),
        is_sole(children, b),
    ensures
        a == b,
{
    if a != b {
        assert(is_trivial(children[a]));
    }
}

/// Takes style wrappers and sequences of one element off.
pub fn peel_wrappers(c: &Content) -> (r: &Content)
    ensures
        *r == peeled(*c),
    decreases c,
{
    match c.kind {
        Kind::Styled => {
            if c.children.len() > 0 {
                proof {
                    assert(decreases_to!(c.children@ => c.children@[0]));
                }
                return peel_wrappers(&c.children[0]);
            }
        },
        Kind::Sequence => {
            if let Some(at) = find_sole(&c.children) {
                proof {
                    lemma_sole_unique(
                        c.children@,
                        at as int,
                        choose|k: int| is_sole(c.children@, k),
                    );
                    assert(decreases_to!(c.children@ => c.children@[at as int]));
                }
                return peel_wrappers(&c.children[at]);
            }
        },
        _ => {},
    }
    c
}

/// Unwraps a body down to a single image.
pub fn unwrap_sole_image(c: &Content) -> (r: Option<&Content>)
    ensures
        match r {
            Some(image) => *image == peeled(*c) && image.kind is Image,
            None => !(peeled(*c).kind is Image),
        },
{
    let inner: &Content = peel_wrappers(c);
    if matches!(inner.kind, Kind::Image) {
        Some(inner)
    } else {
        None
    }
}

/// Whether an equation carries a label inside: an anchor that exists only once
/// the equation is laid out.
pub open spec fn labels_inside(c: Content) -> bool {
    c.kind is Equation && match body(c) {
        Some(b) => holds_class(b, Class::Label),
        None => false,
    }
}

/// Whether a body can be lowered to live content instead of an image.
pub open spec fn extractable(c: Content) -> bool {
    forall|i: int| 0 <= i < preorder(c).len() ==> !labels_inside(#[trigger] preorder(c)[i])
}

/// Whether a body can be lowered to live content instead of an image: it holds
/// no equation with a label inside.
pub fn body_extractable(c: &Content) -> (r: bool)
    ensures
        r == extractable(*c),
{
    let mut all: Vec<&Content> = Vec::new();
    walk(c, &mut all);
    assert(elements(all@) =~= preorder(*c));
    let mut i: usize = 0;
    while i < all.len()
        invariant
            i <= all@.len(),
            elements(all@) == preorder(*c),
            forall|k: int| 0 <= k < i ==> !labels_inside(#[trigger] preorder(*c)[k]),
        decreases all@.len() - i,
    {
        assert(preorder(*c)[i as int] == *all@[i as int]);
        let e: &Content = all[i];
        if matches!(e.kind, Kind::Equation { .. }) && e.children.len() > 0 && contains_class(
            &e.children[0],
            Class::Label,
        ) {
            return false;
        }
        i = i + 1;
    }
    true
}

/// Whether a body holds a footnote.
pub fn body_has_footnote(c: &Content) -> (r: bool)
    ensures
        r == holds_class(*c, Class::Footnote),
{
    contains_class(c, Class::Footnote)
}

/// Whether a body may stand in a text box.
pub fn body_textbox_safe(c: &Content) -> (r: bool)
    ensures
        r == !holds_class(*c, Class::TextBoxUnsafe),
{
    !contains_class(c, Class::TextBoxUnsafe)
}

/// Whether a body is inline flow throughout.
pub fn body_inline_extractable(c: &Content) -> (r: bool)
    ensures
        r == !holds_class(*c, Class::BlockFlow),
{
    !contains_class(c, Class::BlockFlow)
}

/// Whether a body breaks across pages.
pub fn body_is_flowing(c: &Content) -> (r: bool)
    ensures
        r == holds_class(*c, Class::Flowing),
{
    contains_class(c, Class::Flowing)
}

/// Whether content holds placed content.
pub fn contains_place(c: &Content) -> (r: bool)
    ensures
        r == holds_class(*c, Class::Place),
{
    contains_class(c, Class::Place)
}

/// Whether content holds text that shows.
pub fn contains_visible_text(c: &Content) -> (r: bool)
    ensures
        r == holds_class(*c, Class::VisibleText),
{
    contains_class(c, Class::VisibleText)
}

/// Whether content depends on its context.
pub fn contains_context(c: &Content) -> (r: bool)
    ensures
        r == holds_class(*c, Class::Context),
{
    contains_class(c, Class::Context)
}

/// Whether a body wraps content around a figure: it holds a grid and a figure.
pub open spec fn wraps_figure(c: Content) -> bool {
    holds_class(c, Class::Grid) && holds_class(c, Class::Figure)
}

/// Whether a body wraps content around a figure.
pub fn body_is_wrap_figure(c: &Content) -> (r: bool)
    ensures
        r == wraps_figure(*c),
{
    contains_class(c, Class::Grid) && contains_class(c, Class::Figure)
}

/// Whether a body is one flowing container as a whole: columns, a stack, or a
/// grid without a figure.
pub open spec fn is_flow_container(c: Content) -> bool {
    let inner = peeled(c);
    inner.kind is Columns || inner.kind is Stack || (inner.kind is Grid && !wraps_figure(inner))
}

/// Whether a body is one flowing container as a whole.
pub fn body_is_frameless_flow_container(c: &Content) -> (r: bool)
    ensures
        r == is_flow_container(*c),
{
    let inner: &Content = peel_wrappers(c);
    match inner.kind {
        Kind::Columns | Kind::Stack => true,
        Kind::Grid => !body_is_wrap_figure(inner),
        _ => false,
    }
}

/// Whether an element is a container with a frame: a box, a rectangle or a
/// square.
pub open spec fn is_framed(c: Content) -> bool {
    c.kind is Box || c.kind is Rect || c.kind is Square
}

/// Whether an element is a container with a frame.
pub fn is_framed_container(c: &Content) -> (r: bool)
    ensures
        r == is_framed(*c),
{
    matches!(c.kind, Kind::Box { .. } | Kind::Rect | Kind::Square)
}

/// Whether an element stays in the paragraph being assembled.
pub open spec fn stays_inline(c: Content) -> bool {
    c.kind is Counter || c.kind is Text || c.kind is Space || c.kind is Linebreak
        || c.kind is SmartQuote || c.kind is HSpace || c.kind is Strong || c.kind is Emph
        || c.kind is Sub || c.kind is Super || c.kind is Underline || c.kind is Strike
        || c.kind is Highlight || c.kind is Smallcaps || c.kind is Link || c.kind is Ref
        || c.kind is Image || c.kind is Hide
}

/// Whether an element is inline. Tags and equations are not: they are recorded
/// and routed on their own.
pub fn is_inline(c: &Content) -> (r: bool)
    ensures
        r == stays_inline(*c),
{
    matches!(
        c.kind,
        Kind::Counter { .. }
            | Kind::Text { .. }
            | Kind::Space
            | Kind::Linebreak
            | Kind::SmartQuote
            | Kind::HSpace
            | Kind::Strong
            | Kind::Emph
            | Kind::Sub
            | Kind::Super
            | Kind::Underline
            | Kind::Strike
            | Kind::Highlight
            | Kind::Smallcaps
            | Kind::Link
            | Kind::Ref
            | Kind::Image
            | Kind::Hide
    )
}

/// Whether an element shows nothing by design, so that nothing is lost with it.
pub open spec fn invisible(c: Content) -> bool {
    c.kind is Parbreak || c.kind is VSpace || c.kind is Hide || c.kind is Flush
        || c.kind is PdfMarker
}

/// Whether an element shows nothing by design.
pub fn is_invisible_noop(c: &Content) -> (r: bool)
    ensures
        r == invisible(*c),
{
    matches!(
        c.kind,
        Kind::Parbreak | Kind::VSpace | Kind::Hide | Kind::Flush | Kind::PdfMarker
    )
}

/// Whether an element is an empty box without a frame: a strut or a spacer.
pub open spec fn is_strut(c: Content) -> bool {
    c.kind is Box && c.kind->Box_plain && body(c) is None
}

/// Whether an element is an empty box without a frame.
pub fn is_empty_plain_box(c: &Content) -> (r: bool)
    ensures
        r == is_strut(*c),
{
    matches!(c.kind, Kind::Box { plain: true, .. }) && c.children.len() == 0
}

/// Whether a box of set height owns content that its layout computes.
pub open spec fn owns_layout(c: Content) -> bool {
    c.kind is Box && c.kind->fixed_height && holds_class(c, Class::Layout)
}

/// Whether a box of set height owns content that its layout computes.
pub fn finite_layout_canvas_candidate(c: &Content) -> (r: bool)
    ensures
        r == owns_layout(*c),
{
    matches!(c.kind, Kind::Box { fixed_height: true, .. }) && contains_class(c, Class::Layout)
}

/// The first source position in the content that names a source.
pub open spec fn first_span(all: Seq<Content>, i: int) -> Option<Span>
    decreases all.len() - i,
{
    if 0 <= i < all.len() {
        if all[i].span.detached() {
            first_span(all, i + 1)
        } else {
            Some(all[i].span)
        }
    } else {
        None
    }
}

/// The source position of content for review: the first one that names a source,
/// outer before inner.
pub fn review_span(c: &Content) -> (r: Span)
    ensures
        r == (match first_span(preorder(*c), 0) {
            Some(span) => span,
            None => c.span,
        }),
{
    let mut all: Vec<&Content> = Vec::new();
    walk(c, &mut all);
    assert(elements(all@) =~= preorder(*c));
    let mut i: usize = 0;
    while i < all.len()
        invariant
            i <= all@.len(),
            elements(all@) == preorder(*c),
            first_span(preorder(*c), 0) == first_span(preorder(*c), i as int),
        decreases all@.len() - i,
    {
        assert(preorder(*c)[i as int] == *all@[i as int]);
        if !all[i].span.is_detached() {
            return all[i].span;
        }
        i = i + 1;
    }
    c.span
}

/// The frame of a container.
#[derive(Debug, Copy, Clone, PartialEq, Eq, Structural)]
pub struct FrameFacts {
    /// Whether it is filled.
    pub filled: bool,
    /// Whether it has a border.
    pub bordered: bool,
    /// Whether some sides are stroked and others are not.
    pub uneven: bool,
}

/// Whether a container standing alone in a paragraph is better converted as a
/// block.
pub open spec fn converts_as_block(c: Content, frame: FrameFacts) -> bool {
    let inner = peeled(c);
    &&& is_framed(inner)
    &&& match body(inner) {
        Some(b) => {
            &&& extractable(b)
            &&& {
                ||| holds_class(b, Class::Flowing) && (frame.filled || frame.bordered)
                ||| frame.uneven
                ||| !frame.filled && !frame.bordered && (wraps_figure(b) || is_flow_container(b))
            }
        },
        None => false,
    }
}

/// The container that stands alone in a paragraph, when it is better converted
/// as a block: its content flows inside a frame, its frame is uneven, or it is
/// frameless around one flowing container. `frame` describes that container.
pub fn paragraph_sole_block_container(c: &Content, frame: FrameFacts) -> (r: Option<&Content>)
    ensures
        match r {
            Some(inner) => *inner == peeled(*c) && converts_as_block(*c, frame),
            None => !converts_as_block(*c, frame),
        },
{
    let inner: &Content = peel_wrappers(c);
    if !is_framed_container(inner) || inner.children.len() == 0 {
        return None;
    }
    let b: &Content = &inner.children[0];
    if !body_extractable(b) {
        return None;
    }
    if (frame.filled || frame.bordered) && body_is_flowing(b) {
        return Some(inner);
    }
    if frame.uneven {
        return Some(inner);
    }
    if frame.filled || frame.bordered {
        return None;
    }
    if body_is_wrap_figure(b) || body_is_frameless_flow_container(b) {
        Some(inner)
    } else {
        None
    }
}

/// Whether an element is a shape that a drawing can hold.
pub open spec fn is_shape(c: Content) -> bool {
    c.kind is Line || c.kind is Curve || c.kind is Polygon || ((c.kind is Rect
        || c.kind is Square || c.kind is Ellipse || c.kind is Circle) && body(c) is None)
}

/// Whether an element may stand in a composition of shapes.
pub open spec fn joins_shapes(c: Content) -> bool {
    is_shape(c) || is_trivial(c) || c.kind is CurveCommand || c.kind is Sequence
        || c.kind is Styled || c.kind is Align || c.kind is Box || c.kind is Move
        || c.kind is Pad || c.kind is Place || c.kind is Rotate || c.kind is Scale
        || c.kind is Stack
}

/// Whether content is a composition of shapes.
pub open spec fn shapes_only(c: Content) -> bool {
    &&& forall|i: int| 0 <= i < preorder(c).len() ==> joins_shapes(#[trigger] preorder(c)[i])
    &&& exists|i: int| 0 <= i < preorder(c).len() && is_shape(#[trigger] preorder(c)[i])
}

fn shape(c: &Content) -> (r: bool)
    ensures
        r == is_shape(*c),
{
    match c.kind {
        Kind::Line { .. } | Kind::Curve | Kind::Polygon => true,
        Kind::Rect | Kind::Square | Kind::Ellipse | Kind::Circle => c.children.len() == 0,
        _ => false,
    }
}

fn may_join(c: &Content) -> (r: bool)
    ensures
        r == joins_shapes(*c),
{
    shape(c) || trivial(c) || matches!(
        c.kind,
        Kind::CurveCommand
            | Kind::Sequence
            | Kind::Styled
            | Kind::Align
            | Kind::Box { .. }
            | Kind::Move
            | Kind::Pad
            | Kind::Place { .. }
            | Kind::Rotate
            | Kind::Scale
            | Kind::Stack
    )
}

/// Whether content is a composition of shapes: nothing else is in it, and at
/// least one shape is.
pub fn body_shape_only(c: &Content) -> (r: bool)
    ensures
        r == shapes_only(*c),
{
    let mut all: Vec<&Content> = Vec::new();
    walk(c, &mut all);
    assert(elements(all@) =~= preorder(*c));
    let mut seen: bool = false;
    let mut i: usize = 0;
    while i < all.len()
        invariant
            i <= all@.len(),
            elements(all@) == preorder(*c),
            forall|k: int| 0 <= k < i ==> joins_shapes(#[trigger] preorder(*c)[k]),
            seen == (exists|k: int| 0 <= k < i && is_shape(#[trigger] preorder(*c)[k])),
        decreases all@.len() - i,
    {
        assert(preorder(*c)[i as int] == *all@[i as int]);
        if !may_join(all[i]) {
            return false;
        }
        if shape(all[i]) {
            seen = true;
        }
        i = i + 1;
    }
    seen
}

/// Whether a placed element's body is a composition of shapes.
pub open spec fn places_shapes(c: Content) -> bool {
    match body(c) {
        Some(b) => shapes_only(b),
        None => false,
    }
}

/// Whether every placed body in the content is a composition of shapes.
pub open spec fn placed_shapes_only(c: Content) -> bool {
    forall|i: int|
        0 <= i < preorder(c).len() && (#[trigger] preorder(c)[i]).kind is Place ==> places_shapes(
            preorder(c)[i],
        )
}

/// Whether every placed body in the content is a composition of shapes.
pub fn placed_bodies_shape_only(c: &Content) -> (r: bool)
    ensures
        r == placed_shapes_only(*c),
{
    let mut all: Vec<&Content> = Vec::new();
    walk(c, &mut all);
    assert(elements(all@) =~= preorder(*c));
    let mut i: usize = 0;
    while i < all.len()
        invariant
            i <= all@.len(),
            elements(all@) == preorder(*c),
            forall|k: int|
                0 <= k < i && (#[trigger] preorder(*c)[k]).kind is Place ==> places_shapes(
                    preorder(*c)[k],
                ),
        decreases all@.len() - i,
    {
        assert(preorder(*c)[i as int] == *all@[i as int]);
        let e: &Content = all[i];
        if matches!(e.kind, Kind::Place { .. }) && !(e.children.len() > 0 && body_shape_only(
            &e.children[0],
        )) {
            return false;
        }
        i = i + 1;
    }
    true
}

} // verus!
