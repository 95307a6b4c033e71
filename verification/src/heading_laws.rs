//! What the counters of multilevel heading numbering hold, and what a heading's
//! number says of the headings before it.

use vstd::prelude::*;

use crate::dom::{Block, ListLevel, NumFmt, ParaChild, Run};
use crate::heading_numbering::{
    Parts, all_unnumbered, blocks_use_styleref, can_go_live, child_uses_styleref, counter_text,
    counters_after, has_heading, heading_outside_body, headings_among, headings_go_live,
    letters_of, level_number, number_agrees, para_level, para_uses_styleref, rendered_from,
    run_uses_styleref, runs_use_styleref, styleref_anywhere,
};
use crate::numerals::{numerals_read_back, numerals_use_seven_letters, roman_value};
use crate::text::{dec_nat, decimal_reads_back, decimal_value, holds, stands_at};
use crate::walk::paras;

verus! {

/// Whether a heading carries a number and stands on one of the nine levels.
pub open spec fn numbered(heading: (u8, Option<Seq<char>>)) -> bool {
    1 <= heading.0 <= 9 && heading.1 is Some
}

/// How many of the headings from `p` up to `n` carry a number on level `k`.
pub open spec fn numbered_between(
    headings: Seq<(u8, Option<Seq<char>>)>,
    p: int,
    n: int,
    k: int,
) -> nat {
    headings.subrange(p, n).filter(
        |h: (u8, Option<Seq<char>>)| h.0 == k && h.1 is Some,
    ).len()
}

/// Whether no numbered heading from `p` up to `n` is shallower than level `k`,
/// and `p` is the beginning or stands right behind one that is.
pub open spec fn run_of_level(
    headings: Seq<(u8, Option<Seq<char>>)>,
    p: int,
    n: int,
    k: int,
) -> bool {
    &&& 0 <= p <= n <= headings.len()
    &&& p == 0 || (numbered(headings[p - 1]) && headings[p - 1].0 < k)
    &&& forall|i: int|
        p <= i < n ==> !(numbered(#[trigger] headings[i]) && headings[i].0 < k)
}

/// Where the headings begin that level `k` counts after the first `n`.
pub open spec fn run_start(headings: Seq<(u8, Option<Seq<char>>)>, n: int, k: int) -> int
    decreases n,
{
    if n <= 0 || (numbered(headings[n - 1]) && headings[n - 1].0 < k) {
        n
    } else {
        run_start(headings, n - 1, k)
    }
}

/// For each of the nine levels, how many numbered headings of that level stand
/// among the first `n` behind the last shallower one.
pub open spec fn counted(headings: Seq<(u8, Option<Seq<char>>)>, n: int) -> Seq<u64> {
    Seq::new(
        9,
        |i: int| numbered_between(headings, run_start(headings, n, i + 1), n, i + 1) as u64,
    )
}

proof fn lemma_numbered_between(
    headings: Seq<(u8, Option<Seq<char>>)>,
    p: int,
    n: int,
    k: int,
)
    requires
        0 <= p <= n <= headings.len(),
    ensures
        numbered_between(headings, p, n, k) <= n - p,
        p < n ==> numbered_between(headings, p, n, k) == numbered_between(headings, p, n - 1, k)
            + if headings[n - 1].0 == k && headings[n - 1].1 is Some {
            1int
        } else {
            0
        },
        p == n ==> numbered_between(headings, p, n, k) == 0,
    decreases n - p,
{
    let holds = |h: (u8, Option<Seq<char>>)| h.0 == k && h.1 is Some;
    reveal(Seq::filter);
    if p < n {
        lemma_numbered_between(headings, p, n - 1, k);
        assert(headings.subrange(p, n).drop_last() =~= headings.subrange(p, n - 1));
        assert(headings.subrange(p, n).last() == headings[n - 1]);
    }
}

/// The counter of a level holds how many numbered headings of that level came
/// behind the last numbered heading of a shallower level.
pub proof fn counters_start_over_below_a_shallower_heading(
    headings: Seq<(u8, Option<Seq<char>>)>,
    p: int,
    n: int,
    k: int,
)
    requires
        1 <= k <= 9,
        n <= u64::MAX,
        run_of_level(headings, p, n, k),
    ensures
        counters_after(headings, n).len() == 9,
        counters_after(headings, n)[k - 1] == numbered_between(headings, p, n, k),
    decreases n,
{
    lemma_numbered_between(headings, p, n, k);
    lemma_counters(headings, n);
    if p < n {
        assert(!(numbered(headings[n - 1]) && headings[n - 1].0 < k));
        counters_start_over_below_a_shallower_heading(headings, p, n - 1, k);
        lemma_numbered_between(headings, p, n - 1, k);
    } else if n > 0 {
        lemma_counters(headings, n - 1);
    }
}

proof fn lemma_counters(headings: Seq<(u8, Option<Seq<char>>)>, n: int)
    requires
        0 <= n <= headings.len(),
    ensures
        counters_after(headings, n).len() == 9,
    decreases n,
{
    if n > 0 {
        lemma_counters(headings, n - 1);
    }
}

proof fn lemma_run_start(headings: Seq<(u8, Option<Seq<char>>)>, n: int, k: int)
    requires
        0 <= n <= headings.len(),
    ensures
        run_of_level(headings, run_start(headings, n, k), n, k),
    decreases n,
{
    if n > 0 && !(numbered(headings[n - 1]) && headings[n - 1].0 < k) {
        lemma_run_start(headings, n - 1, k);
    }
}

/// The counters of all levels are the counts of headings.
pub proof fn counters_count_headings(headings: Seq<(u8, Option<Seq<char>>)>, n: int)
    requires
        0 <= n <= headings.len(),
        n <= u64::MAX,
    ensures
        counters_after(headings, n) == counted(headings, n),
{
    lemma_counters(headings, n);
    assert forall|i: int| 0 <= i < 9 implies counters_after(headings, n)[i] == #[trigger] counted(
        headings,
        n,
    )[i] by {
        lemma_run_start(headings, n, i + 1);
        counters_start_over_below_a_shallower_heading(
            headings,
            run_start(headings, n, i + 1),
            n,
            i + 1,
        );
    }
    assert(counters_after(headings, n) =~= counted(headings, n));
}

/// Where nothing else stands in the way, the heading numbers of a document go
/// live exactly when every numbered heading carries the number that the count of
/// the headings before it renders.
pub proof fn counted_numbers_go_live(levels: &Vec<ListLevel>, parts: Parts)
    requires
        !heading_outside_body(parts),
        !styleref_anywhere(parts),
        headings_among(paras(parts.body@)).len() <= u64::MAX,
    ensures
        ({
            let headings = headings_among(paras(parts.body@));
            can_go_live(Some(levels), parts) <==> forall|n: int|
                0 <= n < headings.len() && numbered(#[trigger] headings[n]) ==> level_number(
                    levels@,
                    counted(headings, n + 1),
                    headings[n].0 - 1,
                ) == headings[n].1
        }),
{
    let headings = headings_among(paras(parts.body@));
    assert forall|n: int| 0 <= n < headings.len() implies #[trigger] number_agrees(
        levels@,
        headings,
        n,
    ) == (numbered(headings[n]) ==> level_number(
        levels@,
        counted(headings, n + 1),
        headings[n].0 - 1,
    ) == headings[n].1) by {
        counters_count_headings(headings, n + 1);
    }
    if can_go_live(Some(levels), parts) {
        assert forall|n: int| 0 <= n < headings.len() && numbered(#[trigger] headings[n]) implies
        level_number(levels@, counted(headings, n + 1), headings[n].0 - 1) == headings[n].1 by {
            assert(number_agrees(levels@, headings, n));
        }
    }
}

/// A document with a heading outside its body, with a field that retrieves a
/// number by its style, or without levels keeps its numbers as text.
pub proof fn obstacles_keep_numbers_frozen(
    levels: Option<&Vec<ListLevel>>,
    headings: Seq<(u8, Option<Seq<char>>)>,
    parts: Parts,
)
    requires
        heading_outside_body(parts) || styleref_anywhere(parts) || levels is None,
    ensures
        !headings_go_live(levels, headings, parts),
{
}

// -- What a level shows ------------------------------------------------------

/// A level text without placeholders shows as it stands.
pub proof fn plain_level_text_shows_itself(
    levels: Seq<ListLevel>,
    counters: Seq<u64>,
    text: Seq<char>,
    i: int,
)
    requires
        0 <= i <= text.len(),
        forall|j: int| i <= j < text.len() ==> text[j] != '%',
    ensures
        rendered_from(levels, counters, text, i) == Some(text.skip(i)),
    decreases text.len() - i,
{
    if i < text.len() {
        plain_level_text_shows_itself(levels, counters, text, i + 1);
        assert(seq![text[i]] + text.skip(i + 1) =~= text.skip(i));
    } else {
        assert(text.skip(i) =~= Seq::empty());
    }
}

/// The digit of a level, from one to nine.
pub open spec fn level_digit(d: int) -> char {
    if d == 1 {
        '1'
    } else if d == 2 {
        '2'
    } else if d == 3 {
        '3'
    } else if d == 4 {
        '4'
    } else if d == 5 {
        '5'
    } else if d == 6 {
        '6'
    } else if d == 7 {
        '7'
    } else if d == 8 {
        '8'
    } else {
        '9'
    }
}

/// A placeholder `%d` shows the counter of level `d` in that level's format,
/// between what stands before it and what the rest of the text shows.
pub proof fn placeholders_show_their_counters(
    levels: Seq<ListLevel>,
    counters: Seq<u64>,
    text: Seq<char>,
    i: int,
    at: int,
    d: int,
)
    requires
        0 <= i <= at,
        at + 1 < text.len(),
        forall|j: int| i <= j < at ==> text[j] != '%',
        text[at] == '%',
        1 <= d <= 9,
        text[at + 1] == level_digit(d),
        d <= levels.len(),
        d <= counters.len(),
    ensures
        ({
            let shown = counter_text(levels[d - 1].num_fmt, counters[d - 1] as nat);
            let rest = rendered_from(levels, counters, text, at + 2);
            rendered_from(levels, counters, text, i) == (if shown is Some && rest is Some {
                Some(text.subrange(i, at) + shown.unwrap() + rest.unwrap())
            } else {
                None
            })
        }),
    decreases at - i,
{
    let shown = counter_text(levels[d - 1].num_fmt, counters[d - 1] as nat);
    let rest = rendered_from(levels, counters, text, at + 2);
    if i < at {
        placeholders_show_their_counters(levels, counters, text, i + 1, at, d);
        if shown is Some && rest is Some {
            assert(seq![text[i]] + (text.subrange(i + 1, at) + shown.unwrap() + rest.unwrap())
                =~= text.subrange(i, at) + shown.unwrap() + rest.unwrap());
        }
    } else {
        assert(text.subrange(i, at) =~= Seq::empty());
        if shown is Some && rest is Some {
            assert(text.subrange(i, at) + shown.unwrap() + rest.unwrap() =~= shown.unwrap()
                + rest.unwrap());
        }
    }
}

/// Decimal counters read back as their value, and upper-case roman ones too, of
/// which the lower-case ones are the same letters in the other case;
/// letters start at the first letter of their alphabet, one letter long for the
/// first turn; and a bullet states no number.
pub proof fn counters_show_their_value(value: nat)
    ensures
        counter_text(NumFmt::Decimal, value) is Some,
        decimal_value(counter_text(NumFmt::Decimal, value).unwrap()) == Some(value),
        counter_text(NumFmt::UpperRoman, value) is Some <==> 1 <= value <= 3999,
        counter_text(NumFmt::LowerRoman, value) is Some <==> 1 <= value <= 3999,
        1 <= value <= 3999 ==> roman_value(
            counter_text(NumFmt::UpperRoman, value).unwrap(),
        ) == value,
        1 <= value <= 3999 ==> counter_text(NumFmt::LowerRoman, value).unwrap().len()
            == counter_text(NumFmt::UpperRoman, value).unwrap().len(),
        1 <= value <= 3999 ==> forall|i: int|
            0 <= i < counter_text(NumFmt::UpperRoman, value).unwrap().len() ==> (
            #[trigger] counter_text(NumFmt::LowerRoman, value).unwrap()[i]) as int
                == counter_text(NumFmt::UpperRoman, value).unwrap()[i] as int + 32,
        1 <= value <= 26 ==> counter_text(NumFmt::LowerLetter, value) == Some(
            seq![(97 + value - 1) as char],
        ),
        1 <= value <= 26 ==> counter_text(NumFmt::UpperLetter, value) == Some(
            seq![(65 + value - 1) as char],
        ),
        counter_text(NumFmt::LowerLetter, 0) is None,
        counter_text(NumFmt::UpperLetter, 0) is None,
        counter_text(NumFmt::Bullet, value) is None,
        counter_text(NumFmt::Off, value) is None,
{
    decimal_reads_back(value);
    if value == 0 {
        reveal_strlit("0");
        assert("0"@ =~= dec_nat(0));
    }
    if 1 <= value <= 3999 {
        numerals_read_back(value);
        numerals_use_seven_letters(value);
    }
    if 1 <= value <= 26 {
        assert((value - 1) % 26 == value - 1 && (value - 1) / 26 == 0) by (nonlinear_arith)
            requires
                1 <= value <= 26,
        ;
        assert(letters_of(value, 'a').unwrap() =~= seq![(97 + value - 1) as char]);
        assert(letters_of(value, 'A').unwrap() =~= seq![(65 + value - 1) as char]);
    }
}

/// A placeholder that names no level, or one without a counter, states no number,
/// nor does a lone percent sign at the end.
pub proof fn placeholders_must_name_a_level(
    levels: Seq<ListLevel>,
    counters: Seq<u64>,
    text: Seq<char>,
    at: int,
)
    requires
        0 <= at < text.len(),
        text[at] == '%',
    ensures
        at + 1 == text.len() ==> rendered_from(levels, counters, text, at) is None,
        at + 1 < text.len() && !('1' <= text[at + 1] <= '9') ==> rendered_from(
            levels,
            counters,
            text,
            at,
        ) is None,
        at + 1 < text.len() && levels.len() == 0 ==> rendered_from(
            levels,
            counters,
            text,
            at,
        ) is None,
{
}

// -- What stands in the way --------------------------------------------------

/// A heading in a footnote, a header or a footer is outside the body.
pub proof fn headings_in_other_parts_are_outside(parts: Parts, i: int, k: int)
    ensures
        0 <= i < parts.footnotes@.len() && 0 <= k < paras(parts.footnotes@[i].blocks@).len()
            && para_level(paras(parts.footnotes@[i].blocks@)[k]) is Some ==> heading_outside_body(
            parts,
        ),
        0 <= i < parts.headers@.len() && 0 <= k < paras(parts.headers@[i].blocks@).len()
            && para_level(paras(parts.headers@[i].blocks@)[k]) is Some ==> heading_outside_body(
            parts,
        ),
        0 <= i < parts.footers@.len() && 0 <= k < paras(parts.footers@[i].blocks@).len()
            && para_level(paras(parts.footers@[i].blocks@)[k]) is Some ==> heading_outside_body(
            parts,
        ),
        parts.footnotes@.len() == 0 && parts.headers@.len() == 0 && parts.footers@.len() == 0
            ==> !heading_outside_body(parts),
{
    if 0 <= i < parts.footnotes@.len() {
        let ps = paras(parts.footnotes@[i].blocks@);
        if 0 <= k < ps.len() && para_level(ps[k]) is Some {
            assert(has_heading(parts.footnotes@[i].blocks@));
        }
    }
    if 0 <= i < parts.headers@.len() {
        let ps = paras(parts.headers@[i].blocks@);
        if 0 <= k < ps.len() && para_level(ps[k]) is Some {
            assert(has_heading(parts.headers@[i].blocks@));
        }
    }
    if 0 <= i < parts.footers@.len() {
        let ps = paras(parts.footers@[i].blocks@);
        if 0 <= k < ps.len() && para_level(ps[k]) is Some {
            assert(has_heading(parts.footers@[i].blocks@));
        }
    }
}

/// A field that refers to the number style retrieves a heading number, wherever it
/// stands: alone, in the result of another field, in a link, and in any paragraph
/// of any part.
pub proof fn number_style_references_are_found(run: Run, at: int, k: int)
    ensures
        run is Field && stands_at(run->Field_0.instr@, at, "STYLEREF TypstHeadingNumber"@)
            ==> run_uses_styleref(run),
        run is Field && 0 <= k < run->Field_0.result@.len() && run_uses_styleref(
            run->Field_0.result@[k],
        ) ==> run_uses_styleref(run),
        run is Text || run is Tab || run is Break || run is PageBreak ==> !run_uses_styleref(run),
        child_uses_styleref(ParaChild::Run(run)) == run_uses_styleref(run),
{
    if run is Field && stands_at(run->Field_0.instr@, at, "STYLEREF TypstHeadingNumber"@) {
        assert(holds(run->Field_0.instr@, "STYLEREF TypstHeadingNumber"@));
    }
    if run is Field && 0 <= k < run->Field_0.result@.len() && run_uses_styleref(
        run->Field_0.result@[k],
    ) {
        assert(runs_use_styleref(run->Field_0.result@));
    }
}

/// Such a field in the body, a footnote, a header or a footer keeps the numbers of
/// the document frozen.
pub proof fn number_style_references_stand_in_the_way(
    levels: Option<&Vec<ListLevel>>,
    parts: Parts,
    i: int,
)
    ensures
        blocks_use_styleref(parts.body@) ==> !can_go_live(levels, parts),
        0 <= i < parts.footnotes@.len() && blocks_use_styleref(parts.footnotes@[i].blocks@)
            ==> !can_go_live(levels, parts),
        0 <= i < parts.headers@.len() && blocks_use_styleref(parts.headers@[i].blocks@)
            ==> !can_go_live(levels, parts),
        0 <= i < parts.footers@.len() && blocks_use_styleref(parts.footers@[i].blocks@)
            ==> !can_go_live(levels, parts),
{
}

/// A paragraph with such a field among its children, or inside a link, makes its
/// blocks retrieve a number.
pub proof fn paragraphs_with_references_are_found(
    blocks: Seq<Block>,
    i: int,
    j: int,
    k: int,
)
    requires
        0 <= i < paras(blocks).len(),
        0 <= j < paras(blocks)[i].content@.len(),
    ensures
        paras(blocks)[i].content@[j] is Run && run_uses_styleref(
            paras(blocks)[i].content@[j]->Run_0,
        ) ==> blocks_use_styleref(blocks),
        paras(blocks)[i].content@[j] is Hyperlink && 0 <= k
            < paras(blocks)[i].content@[j]->runs@.len() && run_uses_styleref(
            paras(blocks)[i].content@[j]->runs@[k],
        ) ==> blocks_use_styleref(blocks),
{
    let child = paras(blocks)[i].content@[j];
    if child is Hyperlink && 0 <= k < child->runs@.len() && run_uses_styleref(child->runs@[k]) {
        assert(runs_use_styleref(child->runs@));
    }
    if child_uses_styleref(child) {
        assert(para_uses_styleref(paras(blocks)[i]));
    }
}

/// A document is unnumbered exactly where none of its headings has a number.
pub proof fn documents_without_numbers_are_unnumbered(
    headings: Seq<(u8, Option<Seq<char>>)>,
    i: int,
)
    ensures
        0 <= i < headings.len() && headings[i].1 is Some ==> !all_unnumbered(headings),
        headings.len() == 0 ==> all_unnumbered(headings),
{
}

} // verus!
