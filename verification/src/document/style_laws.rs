//! What heading styles and the defaults of a document take over from its text.

use vstd::prelude::*;

use crate::document::styles::{
    are_derived, color_key, demoted, direct_para, number_key, run_vote, samples_at, style_at,
    text_key,
};
use crate::dom::{Block, HeadingStyle, HeadingStyleSample, ParaProps, Run};

verus! {

/// Different fonts, sizes and colors have different keys, and having none differs
/// from having one.
pub proof fn keys_tell_values_apart(
    a: Option<Seq<char>>,
    b: Option<Seq<char>>,
    m: Option<u32>,
    n: Option<u32>,
    c: Option<[u8; 3]>,
    d: Option<[u8; 3]>,
)
    ensures
        text_key(a) == text_key(b) ==> a == b,
        number_key(m) == number_key(n) ==> m == n,
        color_key(c) == color_key(d) ==> (c is Some <==> d is Some) && (c is Some
            ==> c.unwrap()@ == d.unwrap()@),
{
    if text_key(a) == text_key(b) {
        let x = text_key(a);
        let y = text_key(b);
        assert(x[0] == y[0]);
        if a is Some && b is Some {
            let s = a.unwrap();
            let t = b.unwrap();
            assert(x.len() == s.len() + 1 && y.len() == t.len() + 1);
            assert forall|i: int| 0 <= i < s.len() implies s[i] == t[i] by {
                assert(x[i + 1] == s[i] as u32);
                assert(y[i + 1] == t[i] as u32);
                lemma_char(s[i], t[i]);
            }
            assert(s =~= t);
        }
    }
    if number_key(m) == number_key(n) {
        assert(number_key(m)[0] == number_key(n)[0]);
        if m is Some && n is Some {
            assert(number_key(m)[1] == number_key(n)[1]);
        }
    }
    if color_key(c) == color_key(d) {
        let x = color_key(c);
        let y = color_key(d);
        assert(x[0] == y[0]);
        if c is Some && d is Some {
            assert(x[1] == y[1] && x[2] == y[2] && x[3] == y[3]);
            assert(c.unwrap()@ =~= d.unwrap()@);
        }
    }
}

proof fn lemma_char(a: char, b: char)
    requires
        a as u32 == b as u32,
    ensures
        a == b,
{
    assert(a as u32 as char == a);
    assert(b as u32 as char == b);
}

/// A heading style is made from the samples of its own level, in order.
pub proof fn samples_are_of_one_level(samples: Seq<HeadingStyleSample>, level: u8)
    ensures
        samples_at(samples, level) =~= samples.filter(
            |s: HeadingStyleSample| s.level == level,
        ).map_values(|s: HeadingStyleSample| s.rpr),
    decreases samples.len(),
{
    reveal(Seq::filter);
    if samples.len() > 0 {
        samples_are_of_one_level(samples.drop_last(), level);
    }
}

/// There is one style for each level in use, numbered from one, and none of them is
/// numbered yet.
pub proof fn every_level_has_a_style(
    styles: Seq<HeadingStyle>,
    max_level: u8,
    samples: Seq<HeadingStyleSample>,
    body: Seq<Block>,
    level: u8,
)
    requires
        are_derived(styles, max_level, samples, body),
        1 <= level <= max_level,
    ensures
        styles.len() == max_level,
        styles[level - 1].level == level,
        styles[level - 1].num_id is None,
        samples_at(samples, level).len() == 0 ==> {
            &&& styles[level - 1].rpr.bold
            &&& !styles[level - 1].rpr.italic
            &&& styles[level - 1].rpr.font is None
            &&& styles[level - 1].rpr.size_half_pt is None
        },
{
    assert(styles[level - 1].level == level);
}

/// A style stays bold only where it was and all text of its headings is, and italic
/// alike; nothing else of it changes.
pub proof fn styles_only_give_up_weight_and_slant(
    old: HeadingStyle,
    new: HeadingStyle,
    body: Seq<Block>,
)
    requires
        demoted(old, new, body),
    ensures
        new.rpr.bold ==> old.rpr.bold,
        new.rpr.italic ==> old.rpr.italic,
        new.level == old.level,
        new.spacing == old.spacing,
        new.num_id == old.num_id,
        new.rpr.font == old.rpr.font,
        new.rpr.size_half_pt == old.rpr.size_half_pt,
        new.rpr.color == old.rpr.color,
{
}

/// A heading leaves to its style what the style says: that it stays with the next
/// block, its outline level and its spacing, where they are the same.
pub proof fn headings_leave_to_their_style_what_it_says(props: ParaProps, style: HeadingStyle)
    ensures
        !direct_para(props, style).keep_next,
        1 <= style.level <= 9 && props.outline_lvl == Some((style.level - 1) as u8)
            ==> direct_para(props, style).outline_lvl is None,
        1 <= style.level <= 9 && props.outline_lvl != Some((style.level - 1) as u8)
            ==> direct_para(props, style).outline_lvl == props.outline_lvl,
        props.spacing == style.spacing ==> direct_para(props, style).spacing is None,
        props.spacing != style.spacing ==> direct_para(props, style).spacing == props.spacing,
        direct_para(props, style).style == props.style,
        direct_para(props, style).jc == props.jc,
        direct_para(props, style).ind == props.ind,
        direct_para(props, style).num == props.num,
{
}

/// The style of a level is the first one of that level.
pub proof fn the_first_style_of_a_level_governs(
    styles: Seq<HeadingStyle>,
    level: u8,
    from: int,
    k: int,
)
    requires
        0 <= from <= k < styles.len(),
        styles[k].level == level,
        forall|j: int| from <= j < k ==> (#[trigger] styles[j]).level != level,
    ensures
        style_at(styles, level, from) == Some(styles[k]),
    decreases k - from,
{
    if from < k {
        assert(styles[from].level != level);
        the_first_style_of_a_level_governs(styles, level, from + 1, k);
    }
}

/// Text votes for the defaults of a document by its length, at least once, unless
/// it is raw.
pub proof fn text_votes_by_its_length(run: Run)
    ensures
        run is Text && !run->Text_props.no_proof ==> {
            &&& run_vote(run).len() == 1
            &&& run_vote(run)[0].props == run->Text_props
            &&& run->text@.len() > 0 ==> run_vote(run)[0].weight == run->text@.len()
            &&& run->text@.len() == 0 ==> run_vote(run)[0].weight == 1
        },
        run is Text && run->Text_props.no_proof ==> run_vote(run).len() == 0,
        !(run is Text) ==> run_vote(run).len() == 0,
{
}

} // verus!
