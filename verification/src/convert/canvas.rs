//! Canvases: containers whose content is placed shapes and labels that belong
//! together.

use vstd::prelude::*;

use crate::content::{Content, Kind, body};
use crate::convert::predicates::{
    body_shape_only, finite_layout_canvas_candidate, owns_layout, places_shapes,
};
use crate::dom::Location;

verus! {

/// Whether content consists of placed content alone, none of it floating and
/// none of it inside a container of its own.
pub open spec fn all_placed(c: Content) -> bool
    decreases c,
{
    match c.kind {
        Kind::Place { float } => !float,
        Kind::Tag | Kind::Space | Kind::Parbreak => true,
        Kind::Sequence | Kind::Stack => forall|i: int|
            #![trigger c.children@[i]]
            0 <= i < c.children@.len() ==> all_placed(c.children@[i]),
        Kind::Styled
        | Kind::Align
        | Kind::Move
        | Kind::Pad
        | Kind::Rotate
        | Kind::Scale
        | Kind::Skew => c.children@.len() > 0 && all_placed(c.children@[0]),
        _ => false,
    }
}

/// For each placed element whether its body is a composition of shapes, in
/// order.
pub open spec fn placements(c: Content) -> Seq<bool>
    decreases c, 0int,
{
    match c.kind {
        Kind::Place { .. } => seq![places_shapes(c)],
        Kind::Sequence | Kind::Stack => placements_among(c.children@),
        Kind::Styled
        | Kind::Align
        | Kind::Move
        | Kind::Pad
        | Kind::Rotate
        | Kind::Scale
        | Kind::Skew => if c.children@.len() > 0 {
            placements(c.children@[0])
        } else {
            seq![]
        },
        _ => seq![],
    }
}

/// The placed elements among several.
pub open spec fn placements_among(s: Seq<Content>) -> Seq<bool>
    decreases s, 1int,
{
    if s.len() == 0 {
        seq![]
    } else {
        placements_among(s.drop_last()) + placements(s.last())
    }
}

fn visit(c: &Content, out: &mut Vec<bool>) -> (r: bool)
    ensures
        r == all_placed(*c),
        r ==> final(out)@ == old(out)@ + placements(*c),
    decreases c,
{
    match c.kind {
        Kind::Place { float } => {
            if float {
                return false;
            }
            let shapes: bool = c.children.len() > 0 && body_shape_only(&c.children[0]);
            out.push(shapes);
            assert(out@ =~= old(out)@ + placements(*c));
            true
        },
        Kind::Tag | Kind::Space | Kind::Parbreak => {
            assert(out@ =~= old(out)@ + placements(*c));
            true
        },
        Kind::Sequence | Kind::Stack => {
            let n: usize = c.children.len();
            let mut i: usize = 0;
            assert(c.children@.take(0) =~= seq![]);
            assert(out@ =~= old(out)@ + placements_among(c.children@.take(0)));
            while i < n
                invariant
                    i <= n,
                    n == c.children@.len(),
                    c.kind is Sequence || c.kind is Stack,
                    out@ == old(out)@ + placements_among(c.children@.take(i as int)),
                    forall|k: int|
                        #![trigger c.children@[k]]
                        0 <= k < i ==> all_placed(c.children@[k]),
                decreases n - i,
            {
                proof {
                    assert(decreases_to!(c.children@ => c.children@[i as int]));
                    assert(c.children@.take(i + 1).drop_last() =~= c.children@.take(i as int));
                }
                if !visit(&c.children[i], out) {
                    return false;
                }
                i = i + 1;
                assert(out@ =~= old(out)@ + placements_among(c.children@.take(i as int)));
            }
            assert(c.children@.take(n as int) =~= c.children@);
            true
        },
        Kind::Styled
        | Kind::Align
        | Kind::Move
        | Kind::Pad
        | Kind::Rotate
        | Kind::Scale
        | Kind::Skew => {
            if c.children.len() == 0 {
                return false;
            }
            proof {
                assert(decreases_to!(c.children@ => c.children@[0]));
            }
            visit(&c.children[0], out)
        },
        _ => false,
    }
}

/// Whether a container's whole content is placed, with at least one composition
/// of shapes and at least one other body among at least two.
pub open spec fn owns_placements(c: Content) -> bool {
    let contains_content = match c.kind {
        Kind::Block { content, .. } => content,
        Kind::Box { .. } | Kind::Rect | Kind::Square => true,
        _ => false,
    };
    contains_content && match body(c) {
        Some(b) => {
            &&& all_placed(b)
            &&& placements(b).len() >= 2
            &&& placements(b).contains(true)
            &&& placements(b).contains(false)
        },
        None => false,
    }
}

/// Whether a container owns a mixed composition of placed shapes and labels.
pub fn structurally_owned_placed_canvas(c: &Content) -> (r: bool)
    ensures
        r == owns_placements(*c),
{
    let container: bool = match c.kind {
        Kind::Block { content, .. } => content,
        Kind::Box { .. } | Kind::Rect | Kind::Square => true,
        _ => false,
    };
    if !container || c.children.len() == 0 {
        return false;
    }
    let mut found: Vec<bool> = Vec::new();
    if !visit(&c.children[0], &mut found) {
        return false;
    }
    let ghost b = c.children@[0];
    assert(found@ =~= placements(b));
    let mut shapes: bool = false;
    let mut others: bool = false;
    let mut i: usize = 0;
    while i < found.len()
        invariant
            i <= found@.len(),
            shapes == found@.take(i as int).contains(true),
            others == found@.take(i as int).contains(false),
        decreases found@.len() - i,
    {
        let ghost before = found@.take(i as int);
        assert(found@.take(i + 1) =~= before.push(found@[i as int]));
        assert(before.push(found@[i as int])[i as int] == found@[i as int]);
        assert forall|v: bool| before.push(found@[i as int]).contains(v) == (before.contains(v)
            || v == found@[i as int]) by {
            if before.contains(v) {
                let k = choose|k: int| 0 <= k < before.len() && before[k] == v;
                assert(before.push(found@[i as int])[k] == v);
            }
            if before.push(found@[i as int]).contains(v) {
                let k = choose|k: int|
                    0 <= k < before.push(found@[i as int]).len() && before.push(
                        found@[i as int],
                    )[k] == v;
                if k < before.len() {
                    assert(before[k] == v);
                }
            }
        }
        if found[i] {
            shapes = true;
        } else {
            others = true;
        }
        i = i + 1;
    }
    assert(found@.take(i as int) =~= found@);
    found.len() >= 2 && shapes && others
}

/// One item of a laid-out frame, as far as a canvas is concerned.
#[derive(Debug)]
pub enum CanvasItem {
    /// The start of placed content, and its location.
    PlaceStart(Option<Location>),
    /// The start of another element.
    Start,
    End(Location),
    Group(Vec<CanvasItem>),
    Shape,
    Text,
    Image,
    Link,
}

/// What has been seen of a frame.
pub struct CompositionLook {
    /// The placed elements that are open.
    pub active: Seq<Location>,
    /// How many placed elements there were.
    pub places: u64,
    pub placed_shape: bool,
    pub placed_text: bool,
    pub loose_shape: bool,
    pub loose_text: bool,
    /// Whether something was seen that a canvas cannot hold.
    pub invalid: bool,
}

/// A sequence without the last occurrence of a location.
pub open spec fn without_last(s: Seq<Location>, location: Location) -> Seq<Location>
    decreases s.len(),
{
    if s.len() == 0 {
        s
    } else if s.last() == location {
        s.drop_last()
    } else {
        without_last(s.drop_last(), location).push(s.last())
    }
}

/// What has been seen after one more item.
pub open spec fn seen_item(c: CompositionLook, item: CanvasItem) -> CompositionLook
    decreases item, 0int,
{
    match item {
        CanvasItem::PlaceStart(Some(location)) => CompositionLook {
            active: c.active.push(location),
            places: if c.places < u64::MAX {
                (c.places + 1) as u64
            } else {
                u64::MAX
            },
            ..c
        },
        CanvasItem::PlaceStart(None) => CompositionLook { invalid: true, ..c },
        CanvasItem::Start => c,
        CanvasItem::End(location) => CompositionLook {
            active: without_last(c.active, location),
            ..c
        },
        CanvasItem::Group(items) => seen(c, items@),
        CanvasItem::Shape => if c.active.len() == 0 {
            CompositionLook { loose_shape: true, ..c }
        } else {
            CompositionLook { placed_shape: true, ..c }
        },
        CanvasItem::Text => if c.active.len() == 0 {
            CompositionLook { loose_text: true, ..c }
        } else {
            CompositionLook { placed_text: true, ..c }
        },
        CanvasItem::Image | CanvasItem::Link => CompositionLook { invalid: true, ..c },
    }
}

/// What has been seen after several items, groups opened up.
pub open spec fn seen(c: CompositionLook, items: Seq<CanvasItem>) -> CompositionLook
    decreases items, 1int,
{
    if items.len() == 0 {
        c
    } else {
        seen_item(seen(c, items.drop_last()), items.last())
    }
}

/// What has been seen of nothing.
pub open spec fn nothing_seen() -> CompositionLook {
    CompositionLook {
        active: seq![],
        places: 0,
        placed_shape: false,
        placed_text: false,
        loose_shape: false,
        loose_text: false,
        invalid: false,
    }
}

struct Composition {
    active: Vec<Location>,
    places: u64,
    placed_shape: bool,
    placed_text: bool,
    loose_shape: bool,
    loose_text: bool,
    invalid: bool,
}

impl View for Composition {
    type V = CompositionLook;

    closed spec fn view(&self) -> CompositionLook {
        CompositionLook {
            active: self.active@,
            places: self.places,
            placed_shape: self.placed_shape,
            placed_text: self.placed_text,
            loose_shape: self.loose_shape,
            loose_text: self.loose_text,
            invalid: self.invalid,
        }
    }
}

fn remove_last(s: &mut Vec<Location>, location: Location)
    ensures
        final(s)@ == without_last(old(s)@, location),
{
    let mut i: usize = s.len();
    assert(s@.take(i as int) =~= s@);
    assert(s@.skip(i as int) =~= seq![]);
    assert(without_last(s@.take(i as int), location) + s@.skip(i as int) =~= without_last(
        s@,
        location,
    ));
    while i > 0
        invariant
            i <= s@.len(),
            *s == *old(s),
            without_last(s@, location) == without_last(s@.take(i as int), location) + s@.skip(
                i as int,
            ),
        decreases i,
    {
        let ghost head = s@.take(i as int);
        assert(head.drop_last() =~= s@.take(i - 1));
        if s[i - 1] == location {
            s.remove(i - 1);
            assert(s@ =~= old(s)@.take(i - 1) + old(s)@.skip(i as int));
            return;
        }
        assert(without_last(head.drop_last(), location).push(head.last()) + s@.skip(i as int)
            =~= without_last(head.drop_last(), location) + s@.skip(i - 1));
        i = i - 1;
    }
    assert(s@.take(0) =~= seq![]);
    assert(s@.skip(0) =~= s@);
    assert(without_last(s@.take(0), location) + s@.skip(0) =~= s@);
}

fn note_item(c: &mut Composition, item: &CanvasItem)
    ensures
        final(c)@ == seen_item(old(c)@, *item),
    decreases item, 0int,
{
    match item {
        CanvasItem::PlaceStart(Some(location)) => {
            c.active.push(*location);
            if c.places < u64::MAX {
                c.places = c.places + 1;
            }
        },
        CanvasItem::PlaceStart(None) => {
            c.invalid = true;
        },
        CanvasItem::Start => {},
        CanvasItem::End(location) => remove_last(&mut c.active, *location),
        CanvasItem::Group(items) => note_items(c, items),
        CanvasItem::Shape => {
            if c.active.len() == 0 {
                c.loose_shape = true;
            } else {
                c.placed_shape = true;
            }
        },
        CanvasItem::Text => {
            if c.active.len() == 0 {
                c.loose_text = true;
            } else {
                c.placed_text = true;
            }
        },
        CanvasItem::Image | CanvasItem::Link => {
            c.invalid = true;
        },
    }
}

fn note_items(c: &mut Composition, items: &Vec<CanvasItem>)
    ensures
        final(c)@ == seen(old(c)@, items@),
    decreases items@, 1int,
{
    let n: usize = items.len();
    let mut i: usize = 0;
    while i < n
        invariant
            i <= n,
            n == items@.len(),
            c@ == seen(old(c)@, items@.take(i as int)),
        decreases n - i,
    {
        proof {
            assert(decreases_to!(items@ => items@[i as int]));
            assert(items@.take(i + 1).drop_last() =~= items@.take(i as int));
        }
        note_item(c, &items[i]);
        i = i + 1;
    }
    assert(items@.take(n as int) =~= items@);
}

/// Whether what was seen belongs together: two placed elements or more, shapes
/// and text among them, and nothing that stands on its own unless the layout of
/// a bounded box made it.
pub open spec fn is_coherent(c: CompositionLook, bounded_layout: bool) -> bool {
    &&& !c.invalid
    &&& c.places >= 2
    &&& {
        ||| !c.loose_shape && !c.loose_text && c.placed_shape && c.placed_text
        ||| bounded_layout && c.placed_shape && (c.placed_text || c.loose_text)
    }
}

/// Whether the frame of a canvas is laid out at all: the container owns placed
/// content, or computes its content in a bounded box.
pub fn is_canvas_candidate(c: &Content) -> (r: bool)
    ensures
        r == (owns_placements(*c) || owns_layout(*c)),
{
    structurally_owned_placed_canvas(c) || finite_layout_canvas_candidate(c)
}

/// Whether a container is the nearest root of placed content that belongs
/// together, going by its laid-out frame.
pub fn coherent_mixed_placed_canvas(c: &Content, frame: &Vec<CanvasItem>) -> (r: bool)
    ensures
        r == ((owns_placements(*c) || owns_layout(*c)) && is_coherent(
            seen(nothing_seen(), frame@),
            owns_layout(*c),
        )),
{
    let bounded: bool = finite_layout_canvas_candidate(c);
    if !bounded && !structurally_owned_placed_canvas(c) {
        return false;
    }
    let mut found: Composition = Composition {
        active: Vec::new(),
        places: 0,
        placed_shape: false,
        placed_text: false,
        loose_shape: false,
        loose_text: false,
        invalid: false,
    };
    assert(found@ == nothing_seen());
    note_items(&mut found, frame);
    let owned: bool = !found.loose_shape && !found.loose_text && found.placed_shape
        && found.placed_text;
    let computed: bool = bounded && found.placed_shape && (found.placed_text || found.loose_text);
    !found.invalid && found.places >= 2 && (owned || computed)
}

} // verus!
