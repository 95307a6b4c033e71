//! Realized content as plain data: a tree of elements with the facts about each
//! that decide how it is exported.

use vstd::prelude::*;

use crate::dom::{Location, Span};

verus! {

/// What an element is.
#[derive(Debug, Copy, Clone, PartialEq, Eq, Structural)]
pub enum Kind {
    Sequence,
    Styled,
    Tag,
    Space,
    Parbreak,
    Linebreak,
    /// Text, and whether it is blank.
    Text { blank: bool },
    SmartQuote,
    HSpace,
    VSpace,
    Strong,
    Emph,
    Sub,
    Super,
    Underline,
    Strike,
    Highlight,
    Smallcaps,
    Link,
    DirectLink,
    LinkMarker,
    Ref,
    Image,
    Hide,
    /// The display of a counter, and whether it is the page counter.
    Counter { page: bool },
    Equation { block: bool },
    /// Raw text; `label_like` is raw text that spells a label.
    Raw { block: bool, label_like: bool },
    RawLine,
    /// An inline box: whether it has no paint, stroke or clip of its own, and
    /// whether its height is set.
    Box { plain: bool, fixed_height: bool },
    /// A block: whether it has no paint, stroke or clip of its own, and whether
    /// its body is content.
    Block { plain: bool, content: bool },
    Rect,
    Square,
    Ellipse,
    Circle,
    Polygon,
    /// A line, and whether it is a horizontal rule.
    Line { rule: bool },
    Curve,
    /// A command inside a curve.
    CurveCommand,
    /// Placed content, and whether it floats.
    Place { float: bool },
    Align,
    Move,
    Pad,
    Rotate,
    Scale,
    Skew,
    Stack,
    Columns,
    Grid,
    GridCell,
    Table,
    TableCell,
    Figure,
    FigureCaption,
    Heading,
    Title,
    List,
    Enum,
    Terms,
    Outline,
    Quote,
    Footnote,
    Layout,
    Context,
    Par,
    Pagebreak,
    Colbreak,
    Flush,
    PdfMarker,
    Artifact,
    Other,
}

/// An element.
#[derive(Debug)]
pub struct Content {
    pub kind: Kind,
    pub span: Span,
    pub location: Option<Location>,
    /// Whether the element carries a label.
    pub labelled: bool,
    /// The number of characters of a text element.
    pub text_chars: usize,
    /// The content among the element's fields, in order. The body of an element
    /// that has one comes first.
    pub children: Vec<Content>,
}

/// The element and everything inside it, outer before inner, in order.
pub open spec fn preorder(c: Content) -> Seq<Content>
    decreases c, 0int,
{
    seq![c] + preorder_all(c.children@)
}

/// Everything inside a sequence of elements.
pub open spec fn preorder_all(s: Seq<Content>) -> Seq<Content>
    decreases s, 1int,
{
    if s.len() == 0 {
        seq![]
    } else {
        preorder_all(s.drop_last()) + preorder(s.last())
    }
}

/// What the references stand for.
pub open spec fn elements(refs: Seq<&Content>) -> Seq<Content> {
    refs.map_values(|r: &Content| *r)
}

/// Collects the element and everything inside it.
pub fn walk<'a>(c: &'a Content, out: &mut Vec<&'a Content>)
    ensures
        elements(final(out)@) == elements(old(out)@) + preorder(*c),
    decreases c,
{
    let ghost before = elements(out@);
    out.push(c);
    assert(elements(out@) =~= before.push(*c));
    let n: usize = c.children.len();
    let mut i: usize = 0;
    assert(c.children@.take(0) =~= seq![]);
    assert(elements(out@) =~= before + (seq![*c] + preorder_all(c.children@.take(0))));
    while i < n
        invariant
            i <= n,
            n == c.children@.len(),
            elements(out@) == before + (seq![*c] + preorder_all(c.children@.take(i as int))),
        decreases n - i,
    {
        proof {
            assert(decreases_to!(c.children@ => c.children@[i as int]));
            assert(c.children@.take(i + 1).drop_last() =~= c.children@.take(i as int));
        }
        walk(&c.children[i], out);
        i = i + 1;
        assert(elements(out@) =~= before + (seq![*c] + preorder_all(c.children@.take(i as int))));
    }
    assert(c.children@.take(n as int) =~= c.children@);
}

/// A question about one element.
#[derive(Debug, Copy, Clone, PartialEq, Eq, Structural)]
pub enum Class {
    /// It is placed content.
    Place,
    /// It is a footnote.
    Footnote,
    /// It computes its layout in a callback.
    Layout,
    /// It depends on its context.
    Context,
    /// It is text that is not blank.
    VisibleText,
    /// It carries a label, or is raw text that spells one.
    Label,
    /// It is block-level flow: a figure, table, list, heading and the like.
    BlockFlow,
    /// It makes a container's body break across pages.
    Flowing,
    /// It does not belong into a text box.
    TextBoxUnsafe,
    Grid,
    Figure,
    /// Equations.
    Equation,
}

/// Whether the answer to a question about an element is yes.
pub open spec fn is_in_class(c: Content, class: Class) -> bool {
    match class {
        Class::Place => c.kind is Place,
        Class::Footnote => c.kind is Footnote,
        Class::Layout => c.kind is Layout,
        Class::Context => c.kind is Context,
        Class::VisibleText => c.kind == (Kind::Text { blank: false }),
        Class::Label => c.labelled || (c.kind is Raw && c.kind->label_like),
        Class::BlockFlow => c.kind is Figure || c.kind is Table || c.kind is Grid
            || c.kind is Stack || c.kind is Columns || c.kind is List || c.kind is Enum
            || c.kind is Terms || c.kind is Heading || c.kind is Outline,
        Class::Flowing => c.kind is Parbreak || c.kind is List || c.kind is Enum
            || c.kind is Terms || c.kind is Table || c.kind is Grid || c.kind is Block || (
        c.kind is Raw && c.kind->Raw_block),
        Class::TextBoxUnsafe => c.kind is Figure || c.kind is Image || c.kind is Table
            || c.kind is Grid || c.kind is Equation || c.kind is List || c.kind is Enum
            || c.kind is Terms || c.kind is Box || c.kind is Rect || c.kind is Square
            || c.kind is Ellipse || c.kind is Circle || c.kind is Polygon,
        Class::Grid => c.kind is Grid,
        Class::Figure => c.kind is Figure,
        Class::Equation => c.kind is Equation,
    }
}

/// Answers a question about an element.
pub fn in_class(c: &Content, class: Class) -> (r: bool)
    ensures
        r == is_in_class(*c, class),
{
    match class {
        Class::Place => matches!(c.kind, Kind::Place { .. }),
        Class::Footnote => matches!(c.kind, Kind::Footnote),
        Class::Layout => matches!(c.kind, Kind::Layout),
        Class::Context => matches!(c.kind, Kind::Context),
        Class::VisibleText => matches!(c.kind, Kind::Text { blank: false }),
        Class::Label => c.labelled || matches!(c.kind, Kind::Raw { label_like: true, .. }),
        Class::BlockFlow => matches!(
            c.kind,
            Kind::Figure
                | Kind::Table
                | Kind::Grid
                | Kind::Stack
                | Kind::Columns
                | Kind::List
                | Kind::Enum
                | Kind::Terms
                | Kind::Heading
                | Kind::Outline
        ),
        Class::Flowing => matches!(
            c.kind,
            Kind::Parbreak
                | Kind::List
                | Kind::Enum
                | Kind::Terms
                | Kind::Table
                | Kind::Grid
                | Kind::Block { .. }
                | Kind::Raw { block: true, .. }
        ),
        Class::TextBoxUnsafe => matches!(
            c.kind,
            Kind::Figure
                | Kind::Image
                | Kind::Table
                | Kind::Grid
                | Kind::Equation { .. }
                | Kind::List
                | Kind::Enum
                | Kind::Terms
                | Kind::Box { .. }
                | Kind::Rect
                | Kind::Square
                | Kind::Ellipse
                | Kind::Circle
                | Kind::Polygon
        ),
        Class::Grid => matches!(c.kind, Kind::Grid),
        Class::Figure => matches!(c.kind, Kind::Figure),
        Class::Equation => matches!(c.kind, Kind::Equation { .. }),
    }
}

/// Whether some element in the content, itself included, is of the class.
pub open spec fn holds_class(c: Content, class: Class) -> bool {
    exists|i: int| 0 <= i < preorder(c).len() && is_in_class(#[trigger] preorder(c)[i], class)
}

/// Whether some element in the content, itself included, is of the class.
pub fn contains_class(c: &Content, class: Class) -> (r: bool)
    ensures
        r == holds_class(*c, class),
{
    let mut all: Vec<&Content> = Vec::new();
    walk(c, &mut all);
    assert(elements(all@) =~= preorder(*c));
    let mut i: usize = 0;
    while i < all.len()
        invariant
            i <= all@.len(),
            elements(all@) == preorder(*c),
            forall|k: int| 0 <= k < i ==> !is_in_class(#[trigger] preorder(*c)[k], class),
        decreases all@.len() - i,
    {
        assert(preorder(*c)[i as int] == *all@[i as int]);
        if in_class(all[i], class) {
            return true;
        }
        i = i + 1;
    }
    false
}

/// The number of characters of the text elements among elements.
pub open spec fn text_chars_in(s: Seq<Content>) -> nat
    decreases s.len(),
{
    if s.len() == 0 {
        0
    } else {
        text_chars_in(s.drop_last()) + (if s.last().kind is Text {
            s.last().text_chars as nat
        } else {
            0
        })
    }
}

/// The number of characters of all text in the content.
pub fn content_text_chars(c: &Content) -> (r: u128)
    ensures
        r == text_chars_in(preorder(*c)),
{
    let mut all: Vec<&Content> = Vec::new();
    walk(c, &mut all);
    assert(elements(all@) =~= preorder(*c));
    let n: usize = all.len();
    let mut chars: u128 = 0;
    let mut i: usize = 0;
    while i < n
        invariant
            i <= n,
            n == all@.len(),
            elements(all@) == preorder(*c),
            chars == text_chars_in(preorder(*c).take(i as int)),
            chars <= i * usize::MAX,
        decreases n - i,
    {
        proof {
            let s = preorder(*c);
            assert(s.take(i + 1).drop_last() =~= s.take(i as int));
            assert(s[i as int] == *all@[i as int]);
            assert(i * usize::MAX + usize::MAX == (i + 1) * usize::MAX) by (nonlinear_arith);
            assert((i + 1) * usize::MAX <= usize::MAX * usize::MAX) by (nonlinear_arith)
                requires
                    i + 1 <= usize::MAX,
            ;
            assert(usize::MAX * usize::MAX <= u128::MAX) by (nonlinear_arith)
                requires
                    usize::MAX <= 0xffff_ffff_ffff_ffff,
            ;
        }
        if matches!(all[i].kind, Kind::Text { .. }) {
            chars = chars + all[i].text_chars as u128;
        }
        i = i + 1;
    }
    assert(preorder(*c).take(i as int) =~= preorder(*c));
    chars
}

/// The body of an element that has one.
pub open spec fn body(c: Content) -> Option<Content> {
    if c.children@.len() > 0 {
        Some(c.children@[0])
    } else {
        None
    }
}

} // verus!
