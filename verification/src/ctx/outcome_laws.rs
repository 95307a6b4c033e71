//! What is reported about content that has no counterpart in the document.

use vstd::prelude::*;

use crate::content::Content;
use crate::ctx::outcome::{
    approximated, dropped, fallback_of, first_visible, last_visible, texts_joined,
    trimmed_len,
};
use crate::document::furniture::{child_size, content_size, run_size};
use crate::document::geometry::NumberingId;
use crate::document::sources::{attributed, reported_chars};
use crate::dom::{ParaChild, Run};
use crate::fallback::layout::{LaidOut, accepted, rasterized, rejected, usable, usable_part};
use crate::introspect::{Side, first_numbering, on_side, up_to_page};
use crate::report::{DecisionReason, LossSet, Representation};
use crate::text::{is_blank, is_white};

verus! {

/// What was approximated, dropped or rasterized is reported as such, for its reason
/// and with the text that it affects.
pub proof fn outcomes_are_reported_as_what_they_are(
    reason: DecisionReason,
    losses: LossSet,
    chars: usize,
)
    ensures
        approximated(reason, losses, chars).representation == Representation::Approximate,
        approximated(reason, losses, chars).reason == reason,
        approximated(reason, losses, chars).losses == losses,
        approximated(reason, losses, chars).affected_text_chars == chars,
        dropped(reason, chars).representation == Representation::Drop,
        dropped(reason, chars).losses == LossSet::Drop,
        dropped(reason, chars).reason == reason,
        dropped(reason, chars).affected_text_chars == chars,
        rasterized(reason, chars).representation == Representation::Raster,
        rasterized(reason, chars).losses == LossSet::Raster,
        rasterized(reason, chars).reason == reason,
        rasterized(reason, chars).affected_text_chars == chars,
{
}

/// Content that can be drawn becomes an image; what shows nothing by design is
/// passed over in silence, and anything else that cannot be drawn is reported.
pub proof fn what_cannot_be_drawn_is_reported(c: Content)
    ensures
        fallback_of(c, true) is Image,
        c.kind is Parbreak || c.kind is VSpace || c.kind is Hide || c.kind is Flush
            || c.kind is PdfMarker ==> fallback_of(c, false) is Silent,
        c.kind is Text || c.kind is Table || c.kind is Image || c.kind is Figure ==> fallback_of(
            c,
            false,
        ) is Ignored,
        !(fallback_of(c, false) is Image),
{
}

proof fn lemma_first_visible(s: Seq<char>, i: int)
    requires
        0 <= i <= s.len(),
    ensures
        i <= first_visible(s, i) <= s.len(),
        forall|j: int| i <= j < first_visible(s, i) ==> is_white(#[trigger] s[j]),
        first_visible(s, i) < s.len() ==> !is_white(s[first_visible(s, i)]),
    decreases s.len() - i,
{
    if i < s.len() && is_white(s[i]) {
        lemma_first_visible(s, i + 1);
    }
}

proof fn lemma_last_visible(s: Seq<char>, n: int)
    requires
        0 <= n <= s.len(),
    ensures
        -1 <= last_visible(s, n) < n,
        forall|j: int| last_visible(s, n) < j < n ==> is_white(#[trigger] s[j]),
        last_visible(s, n) >= 0 ==> !is_white(s[last_visible(s, n)]),
    decreases n,
{
    if n > 0 && is_white(s[n - 1]) {
        lemma_last_visible(s, n - 1);
    }
}

/// Text counts from its first visible character to its last.
pub proof fn text_counts_between_its_ends(s: Seq<char>, a: int, b: int)
    requires
        0 <= a <= b < s.len(),
        !is_white(s[a]),
        !is_white(s[b]),
        forall|j: int| 0 <= j < a ==> is_white(#[trigger] s[j]),
        forall|j: int| b < j < s.len() ==> is_white(#[trigger] s[j]),
        !is_blank(s),
    ensures
        trimmed_len(s) == b - a + 1,
{
    lemma_first_visible(s, 0);
    lemma_last_visible(s, s.len() as int);
    let first = first_visible(s, 0);
    let last = last_visible(s, s.len() as int);
    if first < a {
        assert(is_white(s[first]));
    }
    if a < first {
        assert(is_white(s[a]));
    }
    if last > b {
        assert(is_white(s[last]));
    }
    if last < b {
        assert(is_white(s[b]));
    }
}

/// Texts are joined in order.
pub proof fn texts_are_joined_in_order(a: Seq<String>, b: Seq<String>)
    ensures
        texts_joined(a + b) == texts_joined(a) + texts_joined(b),
    decreases b.len(),
{
    if b.len() == 0 {
        assert(a + b =~= a);
        assert(texts_joined(a) + texts_joined(b) =~= texts_joined(a));
    } else {
        texts_are_joined_in_order(a, b.drop_last());
        assert((a + b).drop_last() =~= a + b.drop_last());
        assert((a + b).last() == b.last());
        assert(texts_joined(a) + texts_joined(b.drop_last()) + b.last()@ =~= texts_joined(a) + (
        texts_joined(b.drop_last()) + b.last()@));
    }
}

// -- Layout ------------------------------------------------------------------

/// A layout is used where both its sides have a length; of two the first that is.
pub proof fn the_first_usable_layout_is_taken<'a>(
    first: Option<LaidOut<'a>>,
    retry: Option<LaidOut<'a>>,
    w: i64,
    h: i64,
)
    ensures
        usable_part(first) is Some ==> accepted(first, retry) == usable_part(first),
        usable_part(first) is None ==> accepted(first, retry) == usable_part(retry),
        rejected(first) is Some ==> usable_part(first) is None,
        first is Some && usable_part(first) is None ==> rejected(first) == Some(
            first.unwrap().frame,
        ),
        usable(Some(w), Some(h)) <==> w > 0 && h > 0,
        !usable(None, Some(h)),
        !usable(Some(w), None),
{
}

// -- Positions ---------------------------------------------------------------

/// What stands on another page is before or after a place by its page; what stands
/// on the same page counts only where that is asked for.
pub proof fn pages_decide_on_sides(p: usize, page: usize, inclusive: bool)
    ensures
        p < page ==> on_side(Some(p), page, Side::Before, inclusive) && !on_side(
            Some(p),
            page,
            Side::After,
            inclusive,
        ),
        p > page ==> on_side(Some(p), page, Side::After, inclusive) && !on_side(
            Some(p),
            page,
            Side::Before,
            inclusive,
        ),
        p == page ==> on_side(Some(p), page, Side::Before, inclusive) == inclusive && on_side(
            Some(p),
            page,
            Side::After,
            inclusive,
        ) == inclusive,
        !on_side(None, page, Side::Before, inclusive),
        !on_side(None, page, Side::After, inclusive),
{
}

/// What is on a later page does not count up to a page; everything else does.
pub proof fn later_pages_do_not_count(pages: Seq<Option<usize>>, page: usize)
    ensures
        up_to_page(pages, page) == pages.filter(
            |p: Option<usize>| p is None || p.unwrap() <= page,
        ).len(),
    decreases pages.len(),
{
    reveal(Seq::filter);
    if pages.len() > 0 {
        later_pages_do_not_count(pages.drop_last(), page);
    }
}

/// The first numbering among sections is that of the first section that has one.
pub proof fn the_first_numbering_counts(s: Seq<Option<NumberingId>>, from: int, k: int)
    requires
        0 <= from <= k < s.len(),
        s[k] is Some,
        forall|j: int| from <= j < k ==> (#[trigger] s[j]) is None,
    ensures
        first_numbering(s, from) == s[k],
    decreases k - from,
{
    if from < k {
        assert(s[from] is None);
        the_first_numbering_counts(s, from + 1, k);
    }
}

// -- Furniture ---------------------------------------------------------------

/// The size of a line is that of its largest text.
pub proof fn lines_are_as_high_as_their_largest_text(content: Seq<ParaChild>, i: int)
    requires
        0 <= i < content.len(),
        content_size(content) is Some,
    ensures
        child_size(content[i]) is Some,
        child_size(content[i]).unwrap() <= content_size(content).unwrap(),
    decreases content.len(),
{
    if i < content.len() - 1 {
        assert(content.drop_last()[i] == content[i]);
        lines_are_as_high_as_their_largest_text(content.drop_last(), i);
    }
}

/// Text has the size that it states, and none counts as nothing; a drawing has no
/// known size.
pub proof fn text_has_the_size_it_states(run: Run)
    ensures
        run is Text && run->Text_props.size_half_pt is Some ==> run_size(run)
            == run->Text_props.size_half_pt,
        run is Text && run->Text_props.size_half_pt is None ==> run_size(run) == Some(0u32),
        run is Drawing || run is Field ==> run_size(run) is None,
        run is Tab ==> run_size(run) == Some(0u32),
        child_size(ParaChild::Run(run)) == run_size(run),
{
}

/// Sampled characters are attributed to the sources in order: a source with a count
/// of its own keeps it, and the first without one takes what is left.
pub proof fn sampled_text_is_attributed_in_order(sources: Seq<u128>, sampled: u128, n: int)
    requires
        0 <= n < sources.len(),
    ensures
        attributed(sources, sampled, n + 1).0.len() == attributed(sources, sampled, n).0.len() + 1,
        sources[n] != 0 ==> attributed(sources, sampled, n + 1).0.last() == sources[n],
        sources[n] == 0 ==> attributed(sources, sampled, n + 1).0.last() == attributed(
            sources,
            sampled,
            n,
        ).1 && attributed(sources, sampled, n + 1).1 == 0,
        attributed(sources, sampled, 0).1 == sampled,
        sampled <= usize::MAX ==> reported_chars(sampled) == sampled,
{
}

} // verus!
