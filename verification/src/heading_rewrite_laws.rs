//! What becomes of a document whose heading numbers go live.

use vstd::prelude::*;

use crate::dom::{HeadingStyle, ListLevel, NumberingTable, Para, ParaChild};
use crate::heading_numbering::{
    HeadingPattern, child_text, emptied_among, frozen, headings_among, is_heading_level,
    is_styled_text, max_num_id, number_index, number_style_of, para_emptied, para_level,
    para_stripped, registered, retargeted, style_level, styles_joined, without_number,
};
use crate::text::{
    cut_prefix, cut_suffix, dec, dec_nat, decimal_reads_back, decimal_value, digits_value, opt_str,
    stands_at,
};

verus! {

// -- Which paragraphs are headings -------------------------------------------

proof fn lemma_digits(s: Seq<char>)
    ensures
        digits_value(s) == decimal_value(s),
    decreases s.len(),
{
    if s.len() > 0 {
        lemma_digits(s.drop_last());
    }
}

/// The style of the headings of a level names that level, and no style that does
/// not start alike names one.
pub proof fn heading_styles_name_their_level(level: u8)
    requires
        level > 0,
    ensures
        style_level(Some("Heading"@ + dec(level as int))) == Some(level),
        style_level(None) is None,
        forall|name: Seq<char>|
            name.len() < 7 || name.take(7) != "Heading"@ ==> #[trigger] style_level(
                Some(name),
            ) is None,
{
    reveal_strlit("Heading");
    let p = "Heading"@;
    let digits = dec(level as int);
    let name = p + digits;
    decimal_reads_back(level as nat);
    lemma_digits(digits);
    assert(digits == dec_nat(level as nat));
    assert(name.subrange(0, 7) =~= p);
    assert(name.subrange(7, name.len() as int) =~= digits);
    assert(cut_prefix(name, p) == Some(digits));
    lemma_first_digit(level as nat);
    assert forall|other: Seq<char>|
        other.len() < 7 || other.take(7) != p implies #[trigger] style_level(
        Some(other),
    ) is None by {
        if other.len() >= 7 {
            assert(other.subrange(0, 7) =~= other.take(7));
        }
    }
}

proof fn lemma_first_digit(n: nat)
    ensures
        dec_nat(n).len() >= 1,
        '0' <= dec_nat(n)[0] <= '9',
    decreases n,
{
    if n >= 10 {
        lemma_first_digit(n / 10);
    }
}

/// Two levels have two styles.
pub proof fn heading_styles_differ(a: u8, b: u8)
    requires
        a > 0,
        b > 0,
        a != b,
    ensures
        "Heading"@ + dec(a as int) != "Heading"@ + dec(b as int),
{
    heading_styles_name_their_level(a);
    heading_styles_name_their_level(b);
}

/// The headings of a document are collected in order.
pub proof fn headings_are_collected_in_order(a: Seq<Para>, b: Seq<Para>)
    ensures
        headings_among(a + b) == headings_among(a) + headings_among(b),
    decreases b.len(),
{
    if b.len() == 0 {
        assert(a + b =~= a);
        assert(headings_among(a) + headings_among(b) =~= headings_among(a));
    } else {
        headings_are_collected_in_order(a, b.drop_last());
        assert((a + b).drop_last() =~= a + b.drop_last());
        assert((a + b).last() == b.last());
        assert(headings_among(a + b) =~= headings_among(a) + headings_among(b));
    }
}

proof fn lemma_number_index(content: Seq<ParaChild>, style: Seq<char>, i: int)
    requires
        0 <= i <= content.len(),
    ensures
        i <= number_index(content, style, i) <= content.len(),
        forall|k: int|
            i <= k < number_index(content, style, i) ==> !is_styled_text(
                #[trigger] content[k],
                style,
            ),
        number_index(content, style, i) < content.len() ==> is_styled_text(
            content[number_index(content, style, i)],
            style,
        ),
    decreases content.len() - i,
{
    if i < content.len() && !is_styled_text(content[i], style) {
        lemma_number_index(content, style, i + 1);
    }
}

/// A heading is one paragraph with a heading style. Its number is the text of its
/// first run in the number style of its level.
pub proof fn a_heading_has_its_number(para: Para, level: u8, k: int)
    requires
        para_level(para) == Some(level),
        0 <= k < para.content@.len(),
        is_styled_text(para.content@[k], "TypstHeadingNumber"@ + dec(level as int)),
        forall|j: int|
            0 <= j < k ==> !is_styled_text(
                #[trigger] para.content@[j],
                "TypstHeadingNumber"@ + dec(level as int),
            ),
    ensures
        headings_among(seq![para]) == seq![(level, Some(child_text(para.content@[k])))],
{
    lemma_number_index(para.content@, number_style_of(level), 0);
    let at = number_index(para.content@, number_style_of(level), 0);
    if at < k {
        assert(!is_styled_text(para.content@[at], number_style_of(level)));
    }
    assert(at == k);
    assert(seq![para].drop_last() =~= Seq::empty());
    assert(headings_among(Seq::<Para>::empty()) =~= Seq::empty());
    assert(headings_among(seq![para]) =~= seq![(level, Some(child_text(para.content@[k])))]);
}

/// A heading without such a run has no number, and any other paragraph is no
/// heading.
pub proof fn a_plain_heading_has_no_number(para: Para)
    ensures
        para_level(para) is None ==> headings_among(seq![para]).len() == 0,
        para_level(para) is Some && (forall|j: int|
            0 <= j < para.content@.len() ==> !is_styled_text(
                #[trigger] para.content@[j],
                "TypstHeadingNumber"@ + dec(para_level(para).unwrap() as int),
            )) ==> headings_among(seq![para]) == seq![
            (para_level(para).unwrap(), None::<Seq<char>>),
        ],
{
    assert(seq![para].drop_last() =~= Seq::empty());
    assert(headings_among(Seq::<Para>::empty()) =~= Seq::empty());
    if para_level(para) is Some {
        let level = para_level(para).unwrap();
        lemma_number_index(para.content@, number_style_of(level), 0);
        if forall|j: int|
            0 <= j < para.content@.len() ==> !is_styled_text(
                #[trigger] para.content@[j],
                "TypstHeadingNumber"@ + dec(level as int),
            ) {
            assert(headings_among(seq![para]) =~= seq![(level, None::<Seq<char>>)]);
        }
    }
}

// -- Taking numbers out ------------------------------------------------------

/// The number of a heading goes, and the tab behind it with it, also where the end
/// of a bookmark stands between them; everything else stays in its order.
pub proof fn taking_out_a_number_keeps_the_rest(
    pre: Seq<ParaChild>,
    number: ParaChild,
    end: ParaChild,
    tab: ParaChild,
    post: Seq<ParaChild>,
)
    requires
        end is BookmarkEnd,
        tab is Run,
        tab->Run_0 is Tab,
    ensures
        without_number(pre + seq![number, tab] + post, pre.len() as int) == pre + post,
        without_number(pre + seq![number, end, tab] + post, pre.len() as int) == pre + seq![end]
            + post,
        post.len() == 0 || !(post[0] is BookmarkEnd) && !(post[0] is Run && post[0]->Run_0 is Tab)
            ==> without_number(pre + seq![number] + post, pre.len() as int) == pre + post,
        post.len() == 0 || !(post[0] is Run && post[0]->Run_0 is Tab) ==> without_number(
            pre + seq![number, end] + post,
            pre.len() as int,
        ) == pre + seq![end] + post,
{
    let at = pre.len() as int;
    assert((pre + seq![number, tab] + post).remove(at) =~= pre + seq![tab] + post);
    assert((pre + seq![tab] + post).remove(at) =~= pre + post);
    assert((pre + seq![number, end, tab] + post).remove(at) =~= pre + seq![end, tab] + post);
    assert((pre + seq![end, tab] + post).remove(at + 1) =~= pre + seq![end] + post);
    assert((pre + seq![number] + post).remove(at) =~= pre + post);
    assert((pre + seq![number, end] + post).remove(at) =~= pre + seq![end] + post);
    if post.len() > 0 {
        assert((pre + post)[at] == post[0]);
        assert((pre + seq![end] + post)[at + 1] == post[0]);
    }
}

/// A paragraph that is no heading, or a heading too deep for numbering, stays as it
/// is. A heading with a number keeps its formatting; one without keeps its content
/// and opts out of numbering at its level.
pub proof fn headings_join_or_opt_out(old: Para, new: Para)
    requires
        para_stripped(old, new),
    ensures
        para_level(old) is None ==> new == old,
        para_level(old) is Some && para_level(old).unwrap() > 9 ==> new == old,
        para_level(old) is Some && para_level(old).unwrap() <= 9 ==> {
            let level = para_level(old).unwrap();
            &&& frozen(old, level) is Some ==> new.props == old.props && new.content@.len()
                < old.content@.len()
            &&& frozen(old, level) is None ==> {
                &&& new.content == old.content
                &&& new.props.num == Some((0u32, (level - 1) as u8))
                &&& new.props.style == old.props.style
                &&& new.props.jc == old.props.jc
                &&& new.props.spacing == old.props.spacing
                &&& new.props.ind == old.props.ind
            }
        },
{
    if para_level(old) is Some {
        lemma_number_index(old.content@, number_style_of(para_level(old).unwrap()), 0);
    }
}

/// A bookmark that starts right in front of the number of a heading loses its
/// content with it.
pub proof fn bookmarks_around_numbers_are_emptied(para: Para, k: int)
    requires
        para_level(para) is Some,
        para_level(para).unwrap() <= 9,
        0 < k < para.content@.len(),
        is_styled_text(
            para.content@[k],
            "TypstHeadingNumber"@ + dec(para_level(para).unwrap() as int),
        ),
        forall|j: int|
            0 <= j < k ==> !is_styled_text(
                #[trigger] para.content@[j],
                "TypstHeadingNumber"@ + dec(para_level(para).unwrap() as int),
            ),
    ensures
        para.content@[k - 1] is BookmarkStart ==> para_emptied(para) =~= seq![
            para.content@[k - 1]->name@,
        ],
        !(para.content@[k - 1] is BookmarkStart) ==> para_emptied(para).len() == 0,
{
    let style = number_style_of(para_level(para).unwrap());
    lemma_number_index(para.content@, style, 0);
    let at = number_index(para.content@, style, 0);
    if at < k {
        assert(!is_styled_text(para.content@[at], style));
    }
}

/// The emptied bookmarks of a document are collected in order.
pub proof fn emptied_bookmarks_are_collected_in_order(a: Seq<Para>, b: Seq<Para>)
    ensures
        emptied_among(a + b) == emptied_among(a) + emptied_among(b),
    decreases b.len(),
{
    if b.len() == 0 {
        assert(a + b =~= a);
        assert(emptied_among(a) + emptied_among(b) =~= emptied_among(a));
    } else {
        emptied_bookmarks_are_collected_in_order(a, b.drop_last());
        assert((a + b).drop_last() =~= a + b.drop_last());
        assert((a + b).last() == b.last());
        assert(emptied_among(a) + emptied_among(b.drop_last()) + para_emptied(b.last())
            =~= emptied_among(a) + (emptied_among(b.drop_last()) + para_emptied(b.last())));
    }
}

// -- References --------------------------------------------------------------

/// A reference to the text of an emptied bookmark becomes one to the number of the
/// paragraph around it, and keeps linking there; other references stay.
pub proof fn references_to_numbers_follow(name: Seq<char>, emptied: Seq<Seq<char>>)
    ensures
        emptied.contains(name) ==> retargeted(" REF "@ + name + " \\h "@, emptied) == " REF "@
            + name + " \\w \\h "@,
        !emptied.contains(name) ==> retargeted(" REF "@ + name + " \\h "@, emptied) == " REF "@
            + name + " \\h "@,
{
    reveal_strlit(" REF ");
    reveal_strlit(" \\h ");
    let p = " REF "@;
    let s = " \\h "@;
    let instr = p + name + s;
    assert(instr.subrange(0, 5) =~= p);
    assert(instr.subrange(5, instr.len() as int) =~= name + s);
    assert(cut_prefix(instr, p) == Some(name + s));
    let rest = name + s;
    assert(rest.subrange(rest.len() - s.len(), rest.len() - s.len() + s.len()) =~= s);
    assert(rest.subrange(0, rest.len() - s.len()) =~= name);
    assert(cut_suffix(rest, s) == Some(name));
}

/// An instruction that is not such a reference stays.
pub proof fn other_instructions_stay(instr: Seq<char>, emptied: Seq<Seq<char>>)
    requires
        forall|name: Seq<char>|
            #![trigger emptied.contains(name)]
            emptied.contains(name) ==> instr != " REF "@ + name + " \\h "@,
    ensures
        retargeted(instr, emptied) == instr,
{
    reveal_strlit(" REF ");
    reveal_strlit(" \\h ");
    let p = " REF "@;
    let s = " \\h "@;
    if stands_at(instr, 0, p) {
        let rest = instr.subrange(p.len() as int, instr.len() as int);
        if stands_at(rest, rest.len() - s.len(), s) {
            let name = rest.subrange(0, rest.len() - s.len());
            assert(rest =~= name + rest.subrange(rest.len() - s.len(), rest.len() as int));
            assert(instr =~= instr.subrange(0, p.len() as int) + rest);
            assert(instr =~= p + name + s);
        }
    }
}

// -- Numbering ---------------------------------------------------------------

proof fn lemma_max(nums: Seq<crate::dom::NumInstance>, n: int)
    requires
        0 <= n <= nums.len(),
    ensures
        forall|i: int| 0 <= i < n ==> (#[trigger] nums[i]).num_id <= max_num_id(nums, n),
    decreases n,
{
    if n > 0 {
        lemma_max(nums, n - 1);
    }
}

/// Going live adds one definition and one instance of it under a number that no
/// instance had; all others stay.
pub proof fn heading_numbering_is_added(
    old: NumberingTable,
    new: NumberingTable,
    levels: Seq<ListLevel>,
    num_id: u32,
)
    requires
        registered(old, new, levels, num_id),
        old.abstracts@.len() <= u32::MAX,
    ensures
        num_id > 0,
        forall|i: int| 0 <= i < old.nums@.len() ==> (#[trigger] old.nums@[i]).num_id < num_id,
        new.nums@.len() == old.nums@.len() + 1,
        new.nums@.drop_last() =~= old.nums@,
        new.nums@.last().num_id == num_id,
        new.nums@.last().start_override is None,
        new.abstracts@.len() == old.abstracts@.len() + 1,
        new.abstracts@.drop_last() =~= old.abstracts@,
        new.nums@.last().abstract_id == new.abstracts@.last().id,
        new.abstracts@.last().levels@.len() == levels.len(),
        forall|i: int|
            #![trigger levels[i]]
            0 <= i < levels.len() ==> {
                let l = new.abstracts@.last().levels@[i];
                &&& l.num_fmt == levels[i].num_fmt
                &&& l.lvl_text@ == levels[i].lvl_text@
                &&& l.start == levels[i].start
                &&& l.ind_left == levels[i].ind_left
                &&& l.ind_hanging == levels[i].ind_hanging
                &&& opt_str(l.pstyle) == opt_str(levels[i].pstyle)
            },
{
    use_levels(old, new, levels);
    lemma_max(old.nums@, old.nums@.len() as int);
}

proof fn use_levels(old: NumberingTable, new: NumberingTable, levels: Seq<ListLevel>)
    requires
        new.abstracts@.len() == old.abstracts@.len() + 1,
        crate::heading_numbering::levels_view(new.abstracts@.last().levels@)
            == crate::heading_numbering::levels_view(levels),
    ensures
        new.abstracts@.last().levels@.len() == levels.len(),
        forall|i: int|
            #![trigger levels[i]]
            0 <= i < levels.len() ==> {
                let l = new.abstracts@.last().levels@[i];
                &&& l.num_fmt == levels[i].num_fmt
                &&& l.lvl_text@ == levels[i].lvl_text@
                &&& l.start == levels[i].start
                &&& l.ind_left == levels[i].ind_left
                &&& l.ind_hanging == levels[i].ind_hanging
                &&& opt_str(l.pstyle) == opt_str(levels[i].pstyle)
            },
{
    let own = new.abstracts@.last().levels@;
    let a = crate::heading_numbering::levels_view(own);
    let b = crate::heading_numbering::levels_view(levels);
    assert(a.len() == own.len() && b.len() == levels.len());
    assert forall|i: int|
        #![trigger levels[i]]
        0 <= i < levels.len() implies ({
        let l = own[i];
        &&& l.num_fmt == levels[i].num_fmt
        &&& l.lvl_text@ == levels[i].lvl_text@
        &&& l.start == levels[i].start
        &&& l.ind_left == levels[i].ind_left
        &&& l.ind_hanging == levels[i].ind_hanging
        &&& opt_str(l.pstyle) == opt_str(levels[i].pstyle)
    }) by {
        assert(a[i] == b[i]);
    }
}

/// The styles of the nine numbered levels join the new instance; deeper ones stay
/// without a number of theirs.
pub proof fn heading_styles_join_the_numbering(
    old: Seq<HeadingStyle>,
    new: Seq<HeadingStyle>,
    num_id: u32,
    i: int,
)
    requires
        styles_joined(old, new, num_id),
        0 <= i < old.len(),
    ensures
        new.len() == old.len(),
        new[i].level == old[i].level,
        old[i].level <= 9 ==> new[i].num_id == Some(num_id),
        old[i].level > 9 ==> new[i] == old[i],
{
    assert(new[i] == new[i]);
}

/// Each level of a heading pattern starts at one, is bound to the heading style of
/// its depth, and has the format of its piece; the last piece repeats.
pub proof fn pattern_levels_number_headings(level: ListLevel, pattern: HeadingPattern, i: int)
    requires
        is_heading_level(level, pattern, i),
        0 <= i < 9,
        pattern.formats@.len() > 0,
    ensures
        level.start == 1,
        level.pstyle is Some,
        style_level(opt_str(level.pstyle)) == Some((i + 1) as u8),
        level.lvl_text@ == pattern.texts@[i]@,
        i < pattern.formats@.len() ==> pattern.formats@[i] == Some(level.num_fmt),
        i >= pattern.formats@.len() ==> pattern.formats@[pattern.formats@.len() - 1] == Some(
            level.num_fmt,
        ),
        level.ind_left == 0,
        level.ind_hanging == 0,
        level.bullet_font is None,
{
    heading_styles_name_their_level((i + 1) as u8);
}

} // verus!
