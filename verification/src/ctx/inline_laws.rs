//! What typing text does to the runs of a paragraph.

use vstd::prelude::*;

use crate::ctx::inline::{
    Typed, framed_look, joined, proofed, space_count, spaces, stretch_look, typed, typed_spans,
};
use crate::ctx::fonts::SpanLook;
use crate::dom::{ParaBorder, ReviewOrigin};
use crate::length::{round_div, rounding_is_to_the_nearest};
use crate::props::{RunItem, RunLook, opt_border};

verus! {

/// The text of runs, one after another.
pub open spec fn text_of_items(runs: Seq<RunItem>) -> Seq<char>
    decreases runs.len(),
{
    if runs.len() == 0 {
        Seq::empty()
    } else {
        text_of_items(runs.drop_last()) + (match runs.last() {
            RunItem::Text { text, .. } => text,
            RunItem::Other(_) => Seq::empty(),
        })
    }
}

/// The text of stretches, one after another.
pub open spec fn text_of_spans(spans: Seq<SpanLook>) -> Seq<char>
    decreases spans.len(),
{
    if spans.len() == 0 {
        Seq::empty()
    } else {
        text_of_spans(spans.drop_last()) + spans.last().text
    }
}

proof fn lemma_joined(runs: Seq<RunItem>, look: RunLook, text: Seq<char>)
    ensures
        ({
            let r = joined(runs, look, text);
            let joins = runs.len() > 0 && runs.last() is Text && runs.last()->props == look;
            &&& r.len() == runs.len() + if joins {
                0int
            } else {
                1
            }
            &&& joins ==> r.drop_last() == runs.drop_last()
            &&& !joins ==> r.drop_last() == runs
            &&& r.last() is Text
            &&& r.last()->props == look
            &&& joins ==> r.last()->text == runs.last()->text + text
            &&& !joins ==> r.last()->text == text
        }),
{
    let r = joined(runs, look, text);
    if runs.len() > 0 && runs.last() is Text && runs.last()->props == look {
        assert(r.drop_last() =~= runs.drop_last());
    } else {
        assert(r.drop_last() =~= runs);
    }
}

/// Typed text goes to the end: all runs but the last stay, and the text joins the
/// last one only if it is text that looks the same.
pub proof fn typed_text_goes_to_the_end(t: Typed, props: RunLook, text: Seq<char>, raw: bool)
    ensures
        ({
            let r = typed(t, props, text, raw);
            let look = proofed(props, raw);
            let joins = t.runs.len() > 0 && t.runs.last() is Text && t.runs.last()->props == look;
            &&& text_of_items(r.runs) == text_of_items(t.runs) + text
            &&& joins ==> r.runs.len() == t.runs.len() && r.runs.drop_last()
                == t.runs.drop_last()
            &&& !joins ==> r.runs.len() == t.runs.len() + 1 && r.runs.drop_last() == t.runs
            &&& r.runs.last() is Text
            &&& r.runs.last()->props == look
            &&& text.len() > 0 ==> r.last == Some(text[text.len() - 1])
            &&& text.len() == 0 ==> r.last == t.last
        }),
{
    let look = proofed(props, raw);
    let r = joined(t.runs, look, text);
    lemma_joined(t.runs, look, text);
    if t.runs.len() > 0 && t.runs.last() is Text && t.runs.last()->props == look {
        let before = text_of_items(t.runs.drop_last());
        let last = t.runs.last()->text;
        assert(text_of_items(t.runs) == before + last);
        assert(text_of_items(r) == before + (last + text));
        assert(before + (last + text) =~= before + last + text);
    } else {
        assert(text_of_items(r) == text_of_items(t.runs) + text);
    }
}

/// Raw text is not proofed, nor is text inside what is not; nothing else changes.
pub proof fn raw_text_is_not_proofed(props: RunLook, raw: bool)
    ensures
        proofed(props, raw).no_proof <==> props.no_proof || raw,
        !raw ==> proofed(props, raw) == props,
        proofed(props, raw).bold == props.bold,
        proofed(props, raw).italic == props.italic,
        proofed(props, raw).font == props.font,
        proofed(props, raw).style == props.style,
{
}

/// Text typed in stretches is the text of the stretches in order.
pub proof fn stretches_are_typed_in_order(
    t: Typed,
    base: RunLook,
    origin: Option<ReviewOrigin>,
    spans: Seq<SpanLook>,
    raw: bool,
    n: int,
)
    requires
        0 <= n <= spans.len(),
    ensures
        text_of_items(typed_spans(t, base, origin, spans, raw, n).runs) == text_of_items(t.runs)
            + text_of_spans(spans.take(n)),
    decreases n,
{
    if n > 0 {
        stretches_are_typed_in_order(t, base, origin, spans, raw, n - 1);
        let before = typed_spans(t, base, origin, spans, raw, n - 1);
        typed_text_goes_to_the_end(
            before,
            stretch_look(base, origin, spans[n - 1].font),
            spans[n - 1].text,
            raw,
        );
        assert(spans.take(n).drop_last() =~= spans.take(n - 1));
        assert(text_of_items(typed_spans(t, base, origin, spans, raw, n).runs) =~= text_of_items(
            t.runs,
        ) + text_of_spans(spans.take(n)));
    } else {
        assert(spans.take(0) =~= Seq::empty());
        assert(text_of_items(t.runs) + text_of_spans(spans.take(0)) =~= text_of_items(t.runs));
    }
}

/// A stretch in a font of its own has that font, and any other that of its text.
pub proof fn stretches_have_their_font(base: RunLook, origin: Option<ReviewOrigin>, font: Seq<char>)
    ensures
        font.len() > 0 ==> stretch_look(base, origin, font).font == Some(font),
        font.len() == 0 ==> stretch_look(base, origin, font).font == base.font,
        stretch_look(base, origin, font).review_origin == origin,
        stretch_look(base, origin, font).bold == base.bold,
        stretch_look(base, origin, font).italic == base.italic,
        stretch_look(base, origin, font).size_half_pt == base.size_half_pt,
        stretch_look(base, origin, font).color == base.color,
{
}

/// Horizontal space becomes between one and forty spaces: as many as come nearest
/// to its length at three and a half points each.
pub proof fn horizontal_space_becomes_spaces(length: i64)
    ensures
        1 <= space_count(length) <= 40,
        3_500_000 <= length <= 140_000_000 ==> {
            let over = 2 * (3_500_000 * space_count(length) - length);
            -3_500_000 <= over <= 3_500_000
        },
        length < 3_500_000 ==> space_count(length) == 1,
        length > 140_000_000 ==> space_count(length) == 40,
        spaces(space_count(length) as nat).len() == space_count(length),
        forall|i: int|
            0 <= i < space_count(length) ==> #[trigger] spaces(space_count(length) as nat)[i]
                == ' ',
{
    rounding_is_to_the_nearest(length as int, 3_500_000);
    let n = round_div(length as int, 3_500_000);
    assert(3_500_000 * n == n * 3_500_000);
}

/// The runs of a container with a frame have their own shading and border or else
/// those of the container, and nothing else changes.
pub proof fn frames_reach_their_runs(p: RunLook, fill: Option<[u8; 3]>, bdr: Option<ParaBorder>)
    ensures
        p.shd_fill is Some ==> framed_look(p, fill, bdr).shd_fill == p.shd_fill,
        p.shd_fill is None ==> framed_look(p, fill, bdr).shd_fill == fill,
        p.bdr is Some ==> framed_look(p, fill, bdr).bdr == p.bdr,
        p.bdr is None ==> framed_look(p, fill, bdr).bdr == opt_border(bdr),
        framed_look(p, fill, bdr).bold == p.bold,
        framed_look(p, fill, bdr).italic == p.italic,
        framed_look(p, fill, bdr).highlight == p.highlight,
        framed_look(p, fill, bdr).color == p.color,
{
}

} // verus!
