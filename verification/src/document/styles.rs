//! Document-wide text defaults and heading styles.
//!
//! The defaults are what the document's running text actually uses, decided by
//! vote, and the heading styles are what its headings use. Direct properties
//! that the governing style supplies are then stripped from the runs.

use vstd::prelude::*;

use crate::dom::{
    Block, HeadingStyle, HeadingStyleSample, Para, ParaChild, ParaProps, Run, RunProps, Spacing,
    TextDefaults, opt_rgb_eq,
};
use crate::heading_numbering::{heading_level, para_level};
use crate::tally::{
    is_mode, keys_view, mode, mode_bool, true_wins, weighted_mode, wins,
};
use crate::text::{concat2, dec, dec_u64, opt_str, opt_str_eq, str_eq, to_chars};
use crate::walk::{collect_paras, paras, targets};

verus! {

// ---------------------------------------------------------------------------
// Voting keys.
// ---------------------------------------------------------------------------

/// The voting key of an optional text: absent comes first, then texts in order
/// of their characters.
pub open spec fn text_key(s: Option<Seq<char>>) -> Seq<u32> {
    match s {
        None => seq![0u32],
        Some(t) => seq![1u32] + t.map_values(|c: char| c as u32),
    }
}

/// The voting key of an optional number.
pub open spec fn number_key(n: Option<u32>) -> Seq<u32> {
    match n {
        None => seq![0u32],
        Some(v) => seq![1u32, v],
    }
}

/// The voting key of an optional color.
pub open spec fn color_key(c: Option<[u8; 3]>) -> Seq<u32> {
    match c {
        None => seq![0u32],
        Some(v) => seq![1u32, v@[0] as u32, v@[1] as u32, v@[2] as u32],
    }
}

fn make_text_key(s: &Option<String>) -> (r: Vec<u32>)
    ensures
        r@ == text_key(opt_str(*s)),
{
    match s {
        None => vec![0],
        Some(t) => {
            let cs: Vec<char> = to_chars(t.as_str());
            let mut out: Vec<u32> = vec![1];
            let mut i: usize = 0;
            assert(out@ =~= seq![1u32] + cs@.take(0).map_values(|c: char| c as u32));
            while i < cs.len()
                invariant
                    i <= cs.len(),
                    out@ == seq![1u32] + cs@.take(i as int).map_values(|c: char| c as u32),
                decreases cs.len() - i,
            {
                out.push(cs[i] as u32);
                i = i + 1;
                assert(out@ =~= seq![1u32] + cs@.take(i as int).map_values(|c: char| c as u32));
            }
            assert(cs@.take(i as int) =~= cs@);
            out
        },
    }
}

fn make_number_key(n: Option<u32>) -> (r: Vec<u32>)
    ensures
        r@ == number_key(n),
{
    match n {
        None => vec![0],
        Some(v) => vec![1, v],
    }
}

fn make_color_key(c: Option<[u8; 3]>) -> (r: Vec<u32>)
    ensures
        r@ == color_key(c),
{
    match c {
        None => vec![0],
        Some(v) => vec![1, v[0] as u32, v[1] as u32, v[2] as u32],
    }
}

fn copy_text(s: &Option<String>) -> (r: Option<String>)
    ensures
        opt_str(r) == opt_str(*s),
{
    match s {
        Some(t) => Some(t.clone()),
        None => None,
    }
}

// ---------------------------------------------------------------------------
// Heading styles.
// ---------------------------------------------------------------------------

/// The run properties sampled at one level.
pub open spec fn samples_at(samples: Seq<HeadingStyleSample>, level: u8) -> Seq<RunProps>
    decreases samples.len(),
{
    if samples.len() == 0 {
        Seq::empty()
    } else {
        let before = samples_at(samples.drop_last(), level);
        if samples.last().level == level {
            before.push(samples.last().rpr)
        } else {
            before
        }
    }
}

/// Whether `rpr` holds the most common value of each property that a heading
/// style owns, over the samples of a level. A level without samples is bold.
pub open spec fn is_heading_rpr(rpr: RunProps, samples: Seq<RunProps>) -> bool {
    let bare = RunProps {
        font: None,
        bold: false,
        italic: false,
        color: None,
        size_half_pt: None,
        ..rpr
    };
    &&& bare.is_default()
    &&& if samples.len() == 0 {
        rpr.font is None && rpr.bold && !rpr.italic && rpr.color is None && rpr.size_half_pt is None
    } else {
        &&& is_mode(
            samples.map_values(|p: RunProps| text_key(opt_str(p.font))),
            text_key(opt_str(rpr.font)),
        )
        &&& rpr.bold == true_wins(samples.map_values(|p: RunProps| p.bold))
        &&& rpr.italic == true_wins(samples.map_values(|p: RunProps| p.italic))
        &&& is_mode(
            samples.map_values(|p: RunProps| color_key(p.color)),
            color_key(rpr.color),
        )
        &&& is_mode(
            samples.map_values(|p: RunProps| number_key(p.size_half_pt)),
            number_key(rpr.size_half_pt),
        )
    }
}

/// Whether a block is a paragraph in the heading style of a level.
pub open spec fn in_style(block: Block, level: u8) -> bool {
    block matches Block::Para(para) && opt_str(para.props.style) == Some(
        "Heading"@ + dec(level as int),
    )
}

/// The spacing of a paragraph block.
pub open spec fn spacing_of(block: Block) -> Option<Spacing> {
    match block {
        Block::Para(para) => para.props.spacing,
        _ => None,
    }
}

/// The spacing that all paragraphs in the heading style of a level share, if
/// they share one.
pub open spec fn shared_spacing(level: u8, body: Seq<Block>) -> Option<Spacing> {
    let found = body.filter(|b: Block| in_style(b, level));
    if found.len() > 0 && (forall|i: int|
        0 <= i < found.len() ==> spacing_of(#[trigger] found[i]) == spacing_of(found[0])) {
        spacing_of(found[0])
    } else {
        None
    }
}

fn uniform_heading_spacing(level: u8, body: &Vec<Block>) -> (r: Option<Spacing>)
    ensures
        r == shared_spacing(level, body@),
{
    let number: String = dec_u64(level as u64);
    let style_id: String = concat2("Heading", number.as_str());
    let ghost keep = |b: Block| in_style(b, level);
    let mut seen: bool = false;
    let mut spacing: Option<Spacing> = None;
    let mut i: usize = 0;
    while i < body.len()
        invariant
            i <= body.len(),
            style_id@ == "Heading"@ + dec(level as int),
            keep == (|b: Block| in_style(b, level)),
            ({
                let found = body@.take(i as int).filter(keep);
                &&& seen == (found.len() > 0)
                &&& seen ==> spacing == spacing_of(found[0])
                &&& forall|k: int| 0 <= k < found.len() ==> spacing_of(#[trigger] found[k]) == spacing
            }),
        decreases body.len() - i,
    {
        let ghost before = body@.take(i as int).filter(keep);
        proof {
            assert(body@.take(i + 1).drop_last() =~= body@.take(i as int));
            reveal(Seq::filter);
        }
        if let Block::Para(para) = &body[i] {
            let matches_style: bool = match &para.props.style {
                Some(s) => str_eq(s.as_str(), style_id.as_str()),
                None => false,
            };
            if matches_style {
                let ghost after = before.push(body@[i as int]);
                assert(body@.take(i + 1).filter(keep) == after);
                if seen {
                    if para.props.spacing != spacing {
                        proof {
                            lemma_filter_extends(body@, keep, i + 1);
                            let all = body@.filter(keep);
                            assert(all[0] == after[0]);
                            assert(all[before.len() as int] == after[before.len() as int]);
                        }
                        return None;
                    }
                } else {
                    seen = true;
                    spacing = para.props.spacing;
                }
                assert forall|k: int| 0 <= k < after.len() implies spacing_of(#[trigger] after[k])
                    == spacing by {
                    if k < before.len() {
                        assert(after[k] == before[k]);
                    }
                }
            }
        }
        i = i + 1;
    }
    assert(body@.take(i as int) =~= body@);
    if seen {
        spacing
    } else {
        None
    }
}

/// Filtering a longer prefix keeps what filtering a shorter one gave.
proof fn lemma_filter_extends(s: Seq<Block>, keep: spec_fn(Block) -> bool, n: int)
    requires
        0 <= n <= s.len(),
    ensures
        s.take(n).filter(keep).len() <= s.filter(keep).len(),
        forall|k: int|
            0 <= k < s.take(n).filter(keep).len() ==> s.take(n).filter(keep)[k] == #[trigger] s.filter(
                keep,
            )[k],
    decreases s.len() - n,
{
    if n == s.len() {
        assert(s.take(n) =~= s);
    } else {
        lemma_filter_extends(s, keep, n + 1);
        assert(s.take(n + 1).drop_last() =~= s.take(n));
        reveal(Seq::filter);
        let short = s.take(n).filter(keep);
        let long = s.take(n + 1).filter(keep);
        assert(long == short || long == short.push(s[n]));
        assert forall|k: int| 0 <= k < short.len() implies short[k] == #[trigger] s.filter(
            keep,
        )[k] by {
            assert(long[k] == short[k]);
        }
    }
}

fn sample_keys(samples: &Vec<HeadingStyleSample>, level: u8) -> (r: (
    Vec<usize>,
    Vec<Vec<u32>>,
    Vec<Vec<u32>>,
    Vec<Vec<u32>>,
    Vec<bool>,
    Vec<bool>,
))
    ensures
        ({
            let props = samples_at(samples@, level);
            &&& r.0@.len() == props.len()
            &&& forall|k: int|
                0 <= k < props.len() ==> (#[trigger] r.0@[k]) < samples@.len()
                    && samples@[r.0@[k] as int].rpr == props[k]
            &&& keys_view(r.1@) == props.map_values(|p: RunProps| text_key(opt_str(p.font)))
            &&& keys_view(r.2@) == props.map_values(|p: RunProps| color_key(p.color))
            &&& keys_view(r.3@) == props.map_values(|p: RunProps| number_key(p.size_half_pt))
            &&& r.4@ == props.map_values(|p: RunProps| p.bold)
            &&& r.5@ == props.map_values(|p: RunProps| p.italic)
        }),
{
    let mut index: Vec<usize> = Vec::new();
    let mut fonts: Vec<Vec<u32>> = Vec::new();
    let mut colors: Vec<Vec<u32>> = Vec::new();
    let mut sizes: Vec<Vec<u32>> = Vec::new();
    let mut bolds: Vec<bool> = Vec::new();
    let mut italics: Vec<bool> = Vec::new();
    let mut i: usize = 0;
    while i < samples.len()
        invariant
            i <= samples.len(),
            ({
                let props = samples_at(samples@.take(i as int), level);
                &&& index@.len() == props.len()
                &&& forall|k: int|
                    0 <= k < props.len() ==> (#[trigger] index@[k]) < samples@.len()
                        && samples@[index@[k] as int].rpr == props[k]
                &&& keys_view(fonts@) =~= props.map_values(
                    |p: RunProps| text_key(opt_str(p.font)),
                )
                &&& keys_view(colors@) =~= props.map_values(|p: RunProps| color_key(p.color))
                &&& keys_view(sizes@) =~= props.map_values(
                    |p: RunProps| number_key(p.size_half_pt),
                )
                &&& bolds@ =~= props.map_values(|p: RunProps| p.bold)
                &&& italics@ =~= props.map_values(|p: RunProps| p.italic)
            }),
        decreases samples.len() - i,
    {
        assert(samples@.take(i + 1).drop_last() =~= samples@.take(i as int));
        assert(samples@.take(i + 1).last() == samples@[i as int]);
        let ghost before = samples_at(samples@.take(i as int), level);
        let ghost after = samples_at(samples@.take(i + 1), level);
        if samples[i].level == level {
            let p: &RunProps = &samples[i].rpr;
            let ghost f0 = fonts@;
            let ghost c0 = colors@;
            let ghost s0 = sizes@;
            index.push(i);
            fonts.push(make_text_key(&p.font));
            colors.push(make_color_key(p.color));
            sizes.push(make_number_key(p.size_half_pt));
            bolds.push(p.bold);
            italics.push(p.italic);
            proof {
                assert(after == before.push(*p));
                assert(keys_view(fonts@) =~= keys_view(f0).push(text_key(opt_str(p.font))));
                assert(keys_view(colors@) =~= keys_view(c0).push(color_key(p.color)));
                assert(keys_view(sizes@) =~= keys_view(s0).push(number_key(p.size_half_pt)));
                assert(keys_view(fonts@) =~= after.map_values(
                    |p: RunProps| text_key(opt_str(p.font)),
                ));
                assert(keys_view(colors@) =~= after.map_values(|p: RunProps| color_key(p.color)));
                assert(keys_view(sizes@) =~= after.map_values(
                    |p: RunProps| number_key(p.size_half_pt),
                ));
                assert(bolds@ =~= after.map_values(|p: RunProps| p.bold));
                assert(italics@ =~= after.map_values(|p: RunProps| p.italic));
            }
        }
        i = i + 1;
    }
    assert(samples@.take(i as int) =~= samples@);
    (index, fonts, colors, sizes, bolds, italics)
}

fn heading_rpr(samples: &Vec<HeadingStyleSample>, level: u8) -> (r: RunProps)
    ensures
        is_heading_rpr(r, samples_at(samples@, level)),
{
    let (index, fonts, colors, sizes, bolds, italics) = sample_keys(samples, level);
    let mut rpr: RunProps = RunProps::default();
    if index.len() == 0 {
        rpr.bold = true;
        return rpr;
    }
    let ghost props = samples_at(samples@, level);
    assert(keys_view(fonts@).len() == fonts@.len());
    assert(keys_view(colors@).len() == colors@.len());
    assert(keys_view(sizes@).len() == sizes@.len());
    if let Some(i) = mode(&fonts) {
        assert(keys_view(fonts@)[i as int] == fonts@[i as int]@);
        assert(samples@[index@[i as int] as int].rpr == props[i as int]);
        rpr.font = copy_text(&samples[index[i]].rpr.font);
    }
    if let Some(i) = mode(&colors) {
        assert(keys_view(colors@)[i as int] == colors@[i as int]@);
        assert(samples@[index@[i as int] as int].rpr == props[i as int]);
        rpr.color = samples[index[i]].rpr.color;
    }
    if let Some(i) = mode(&sizes) {
        assert(keys_view(sizes@)[i as int] == sizes@[i as int]@);
        assert(samples@[index@[i as int] as int].rpr == props[i as int]);
        rpr.size_half_pt = samples[index[i]].rpr.size_half_pt;
    }
    rpr.bold = mode_bool(&bolds);
    rpr.italic = mode_bool(&italics);
    rpr
}

/// Whether `styles` are the heading styles of levels one to `max_level` that the
/// samples and the paragraphs of the body show.
pub open spec fn are_derived(
    styles: Seq<HeadingStyle>,
    max_level: u8,
    samples: Seq<HeadingStyleSample>,
    body: Seq<Block>,
) -> bool {
    &&& styles.len() == max_level
    &&& forall|i: int|
        0 <= i < styles.len() ==> {
            let style = #[trigger] styles[i];
            &&& style.level == i + 1
            &&& is_heading_rpr(style.rpr, samples_at(samples, (i + 1) as u8))
            &&& style.spacing == shared_spacing((i + 1) as u8, body)
            &&& style.num_id is None
        }
}

/// Derives the heading styles of levels one to `max_heading_level` from the
/// resolved heading samples and the body's paragraphs.
pub fn derive_heading_styles(
    max_heading_level: u8,
    samples: &Vec<HeadingStyleSample>,
    body: &Vec<Block>,
) -> (styles: Vec<HeadingStyle>)
    ensures
        are_derived(styles@, max_heading_level, samples@, body@),
{
    let mut styles: Vec<HeadingStyle> = Vec::new();
    let mut level: u8 = 0;
    while level < max_heading_level
        invariant
            level <= max_heading_level,
            styles@.len() == level,
            forall|i: int|
                0 <= i < level ==> {
                    let style = #[trigger] styles@[i];
                    &&& style.level == i + 1
                    &&& is_heading_rpr(style.rpr, samples_at(samples@, (i + 1) as u8))
                    &&& style.spacing == shared_spacing((i + 1) as u8, body@)
                    &&& style.num_id is None
                },
        decreases max_heading_level - level,
    {
        level = level + 1;
        styles.push(
            HeadingStyle {
                level,
                rpr: heading_rpr(samples, level),
                spacing: uniform_heading_spacing(level, body),
                num_id: None,
            },
        );
    }
    styles
}

// ---------------------------------------------------------------------------
// Booleans that a style cannot own.
// ---------------------------------------------------------------------------

/// The properties of the text runs of paragraph content: those that stand in it
/// directly and those of its hyperlinks.
pub open spec fn run_props_in(content: Seq<ParaChild>) -> Seq<RunProps>
    decreases content.len(),
{
    if content.len() == 0 {
        Seq::empty()
    } else {
        let before = run_props_in(content.drop_last());
        match content.last() {
            ParaChild::Run(Run::Text { props, .. }) => before.push(props),
            ParaChild::Hyperlink { runs, .. } => before + text_props(runs@),
            _ => before,
        }
    }
}

/// The properties of the text runs among runs.
pub open spec fn text_props(runs: Seq<Run>) -> Seq<RunProps>
    decreases runs.len(),
{
    if runs.len() == 0 {
        Seq::empty()
    } else {
        let before = text_props(runs.drop_last());
        match runs.last() {
            Run::Text { props, .. } => before.push(props),
            _ => before,
        }
    }
}

/// Whether a run is bold, or else whether it is italic.
pub open spec fn flag(p: RunProps, bold: bool) -> bool {
    if bold {
        p.bold
    } else {
        p.italic
    }
}

/// Whether all runs have the property.
pub open spec fn all_props(props: Seq<RunProps>, f: spec_fn(RunProps) -> bool) -> bool {
    forall|i: int| 0 <= i < props.len() ==> f(#[trigger] props[i])
}

/// Whether all text runs under the headings of a level have the property.
pub open spec fn headings_all(
    body: Seq<Block>,
    level: u8,
    f: spec_fn(RunProps) -> bool,
) -> bool {
    forall|i: int|
        0 <= i < body.len() ==> (#[trigger] body[i] matches Block::Para(para) ==> para_level(para)
            == Some(level) ==> all_props(run_props_in(para.content@), f))
}

fn text_all(runs: &Vec<Run>, bold: bool) -> (r: bool)
    ensures
        r == all_props(
            text_props(runs@),
            |p: RunProps| flag(p, bold),
        ),
{
    let ghost f = |p: RunProps| flag(p, bold);
    let mut r: bool = true;
    let mut i: usize = 0;
    while i < runs.len()
        invariant
            i <= runs.len(),
            f == (|p: RunProps| flag(p, bold)),
            r == all_props(text_props(runs@.take(i as int)), f),
        decreases runs.len() - i,
    {
        assert(runs@.take(i + 1).drop_last() =~= runs@.take(i as int));
        assert(runs@.take(i + 1).last() == runs@[i as int]);
        let ghost before = text_props(runs@.take(i as int));
        if let Run::Text { props, .. } = &runs[i] {
            proof {
                lemma_all_push(before, *props, f);
            }
            let own: bool = if bold {
                props.bold
            } else {
                props.italic
            };
            r = r && own;
        }
        i = i + 1;
    }
    assert(runs@.take(i as int) =~= runs@);
    r
}

proof fn lemma_all_push(s: Seq<RunProps>, p: RunProps, f: spec_fn(RunProps) -> bool)
    ensures
        all_props(s.push(p), f) == (all_props(s, f) && f(p)),
{
    if all_props(s.push(p), f) {
        assert forall|i: int| 0 <= i < s.len() implies f(#[trigger] s[i]) by {
            assert(s.push(p)[i] == s[i]);
        }
        assert(s.push(p)[s.len() as int] == p);
    }
}

proof fn lemma_all_concat(a: Seq<RunProps>, b: Seq<RunProps>, f: spec_fn(RunProps) -> bool)
    ensures
        all_props(a + b, f) == (all_props(a, f) && all_props(b, f)),
{
    if all_props(a + b, f) {
        assert forall|i: int| 0 <= i < a.len() implies f(#[trigger] a[i]) by {
            assert((a + b)[i] == a[i]);
        }
        assert forall|i: int| 0 <= i < b.len() implies f(#[trigger] b[i]) by {
            assert((a + b)[a.len() + i] == b[i]);
        }
    }
}

fn content_all(content: &Vec<ParaChild>, bold: bool) -> (r: bool)
    ensures
        r == all_props(
            run_props_in(content@),
            |p: RunProps| flag(p, bold),
        ),
{
    let ghost f = |p: RunProps| flag(p, bold);
    let mut r: bool = true;
    let mut i: usize = 0;
    while i < content.len()
        invariant
            i <= content.len(),
            f == (|p: RunProps| flag(p, bold)),
            r == all_props(run_props_in(content@.take(i as int)), f),
        decreases content.len() - i,
    {
        assert(content@.take(i + 1).drop_last() =~= content@.take(i as int));
        assert(content@.take(i + 1).last() == content@[i as int]);
        let ghost before = run_props_in(content@.take(i as int));
        match &content[i] {
            ParaChild::Run(Run::Text { props, .. }) => {
                proof {
                    lemma_all_push(before, *props, f);
                }
                let own: bool = if bold {
                    props.bold
                } else {
                    props.italic
                };
                r = r && own;
            }
            ParaChild::Hyperlink { runs, .. } => {
                proof {
                    lemma_all_concat(before, text_props(runs@), f);
                }
                let own: bool = text_all(runs, bold);
                r = r && own;
            }
            _ => {}
        }
        i = i + 1;
    }
    assert(content@.take(i as int) =~= content@);
    r
}

fn level_all(body: &Vec<Block>, level: u8, bold: bool) -> (r: bool)
    ensures
        r == headings_all(
            body@,
            level,
            |p: RunProps| flag(p, bold),
        ),
{
    let ghost f = |p: RunProps| flag(p, bold);
    let mut i: usize = 0;
    while i < body.len()
        invariant
            i <= body.len(),
            f == (|p: RunProps| flag(p, bold)),
            forall|k: int|
                0 <= k < i ==> (#[trigger] body@[k] matches Block::Para(para) ==> para_level(para)
                    == Some(level) ==> all_props(run_props_in(para.content@), f)),
        decreases body.len() - i,
    {
        if let Block::Para(para) = &body[i] {
            let here: bool = match heading_level(&para.props.style) {
                Some(l) => l == level,
                None => false,
            };
            if here && !content_all(&para.content, bold) {
                assert(body@[i as int] matches Block::Para(p) && para_level(p) == Some(level));
                return false;
            }
        }
        i = i + 1;
    }
    true
}

/// Whether a style keeps bold and italic only where all runs under the headings
/// of its level have them.
pub open spec fn demoted(old: HeadingStyle, new: HeadingStyle, body: Seq<Block>) -> bool {
    new == (HeadingStyle {
        rpr: RunProps {
            bold: old.rpr.bold && headings_all(
                body,
                old.level,
                |p: RunProps| flag(p, true),
            ),
            italic: old.rpr.italic && headings_all(
                body,
                old.level,
                |p: RunProps| flag(p, false),
            ),
            ..old.rpr
        },
        ..old
    })
}

/// Whether every style keeps bold and italic only where its runs allow it.
pub open spec fn all_demoted(
    old: Seq<HeadingStyle>,
    new: Seq<HeadingStyle>,
    body: Seq<Block>,
) -> bool {
    &&& new.len() == old.len()
    &&& forall|i: int| 0 <= i < old.len() ==> demoted(old[i], #[trigger] new[i], body)
}

fn demote_style(style: &mut HeadingStyle, body: &Vec<Block>)
    ensures
        demoted(*old(style), *final(style), body@),
{
    let bold: bool = level_all(body, style.level, true);
    let italic: bool = level_all(body, style.level, false);
    if !bold {
        style.rpr.bold = false;
    }
    if !italic {
        style.rpr.italic = false;
    }
}

/// Drops bold or italic from a heading style when any run under a heading of
/// that level has it off: a run cannot turn off what its style turns on.
pub fn demote_unrepresentable_heading_booleans(
    heading_styles: &mut Vec<HeadingStyle>,
    body: &Vec<Block>,
)
    ensures
        all_demoted(old(heading_styles)@, final(heading_styles)@, body@),
{
    let n: usize = heading_styles.len();
    let mut i: usize = 0;
    while i < n
        invariant
            i <= n,
            n == heading_styles@.len(),
            n == old(heading_styles)@.len(),
            forall|k: int| i <= k < n ==> heading_styles@[k] == old(heading_styles)@[k],
            forall|k: int|
                0 <= k < i ==> demoted(
                    old(heading_styles)@[k],
                    #[trigger] heading_styles@[k],
                    body@,
                ),
        decreases n - i,
    {
        demote_style(&mut heading_styles[i], body);
        i = i + 1;
    }
}

// ---------------------------------------------------------------------------
// Inheritance.
// ---------------------------------------------------------------------------

/// Run properties without what a heading style supplies.
pub open spec fn below_style(p: RunProps, style: RunProps) -> RunProps {
    RunProps {
        font: if opt_str(p.font) == opt_str(style.font) {
            None
        } else {
            p.font
        },
        size_half_pt: if p.size_half_pt == style.size_half_pt {
            None
        } else {
            p.size_half_pt
        },
        color: if !p.preserve_color && p.color == style.color {
            None
        } else {
            p.color
        },
        bold: p.bold && !style.bold,
        italic: p.italic && !style.italic,
        ..p
    }
}

/// Run properties without what the document defaults supply. Under a heading
/// style only the defaults count that the style does not define itself.
pub open spec fn below_defaults(
    p: RunProps,
    defaults: TextDefaults,
    style: Option<RunProps>,
) -> RunProps {
    let (font_free, size_free, color_free, lang_free) = free_of(style);
    RunProps {
        font: if font_free && opt_str(p.font) == opt_str(defaults.font) {
            None
        } else {
            p.font
        },
        size_half_pt: if size_free && p.size_half_pt == Some(defaults.size_half_pt) {
            None
        } else {
            p.size_half_pt
        },
        color: if !p.preserve_color && color_free && p.color == defaults.color {
            None
        } else {
            p.color
        },
        lang: if lang_free && opt_str(p.lang) == opt_str(defaults.lang) {
            None
        } else {
            p.lang
        },
        ..p
    }
}

/// The direct properties that remain of a run's properties.
pub open spec fn direct(p: RunProps, defaults: TextDefaults, style: Option<RunProps>) -> RunProps {
    match style {
        Some(s) => below_defaults(below_style(p, s), defaults, style),
        None => below_defaults(p, defaults, style),
    }
}

fn strip_heading_run_props(props: &mut RunProps, style: &RunProps)
    ensures
        *final(props) == below_style(*old(props), *style),
{
    let size: Option<u32> = if props.size_half_pt == style.size_half_pt {
        None
    } else {
        props.size_half_pt
    };
    let color: Option<[u8; 3]> = if !props.preserve_color && opt_rgb_eq(props.color, style.color) {
        None
    } else {
        props.color
    };
    let bold: bool = props.bold && !style.bold;
    let italic: bool = props.italic && !style.italic;
    if opt_str_eq(&props.font, &style.font) {
        props.font = None;
    }
    props.size_half_pt = size;
    props.color = color;
    props.bold = bold;
    props.italic = italic;
}

/// Whether a heading style leaves a property to the document defaults: the font,
/// the size, the color and the language.
pub open spec fn free_of(style: Option<RunProps>) -> (bool, bool, bool, bool) {
    match style {
        Some(s) => (s.font is None, s.size_half_pt is None, s.color is None, s.lang is None),
        None => (true, true, true, true),
    }
}

fn strip_default_size_color(
    props: &mut RunProps,
    defaults: &TextDefaults,
    size_free: bool,
    color_free: bool,
)
    ensures
        *final(props) == (RunProps {
            size_half_pt: if size_free && old(props).size_half_pt == Some(defaults.size_half_pt) {
                None
            } else {
                old(props).size_half_pt
            },
            color: if !old(props).preserve_color && color_free && old(props).color
                == defaults.color {
                None
            } else {
                old(props).color
            },
            ..*old(props)
        }),
{
    if size_free && props.size_half_pt == Some(defaults.size_half_pt) {
        props.size_half_pt = None;
    }
    if !props.preserve_color && color_free && opt_rgb_eq(props.color, defaults.color) {
        props.color = None;
    }
}

/// Strips the document defaults from run properties, under a heading style only
/// where the style does not define the same property.
fn strip_text_defaults(props: &mut RunProps, defaults: &TextDefaults, style: Option<&RunProps>)
    ensures
        *final(props) == below_defaults(
            *old(props),
            *defaults,
            match style {
                Some(s) => Some(*s),
                None => None,
            },
        ),
{
    let (font_free, size_free, color_free, lang_free) = match style {
        Some(s) => (
            s.font.is_none(),
            s.size_half_pt.is_none(),
            s.color.is_none(),
            s.lang.is_none(),
        ),
        None => (true, true, true, true),
    };
    strip_default_size_color(props, defaults, size_free, color_free);
    if font_free && opt_str_eq(&props.font, &defaults.font) {
        props.font = None;
    }
    if lang_free && opt_str_eq(&props.lang, &defaults.lang) {
        props.lang = None;
    }
}

fn strip_props(props: &mut RunProps, defaults: &TextDefaults, style: Option<&RunProps>)
    ensures
        *final(props) == direct(
            *old(props),
            *defaults,
            match style {
                Some(s) => Some(*s),
                None => None,
            },
        ),
{
    if let Some(s) = style {
        strip_heading_run_props(props, s);
    }
    strip_text_defaults(props, defaults, style);
}

/// Whether a run only lost inherited properties.
pub open spec fn run_inherits(
    old: Run,
    new: Run,
    defaults: TextDefaults,
    style: Option<RunProps>,
) -> bool {
    match old {
        Run::Text { props, text } => new == (Run::Text {
            props: direct(props, defaults, style),
            text,
        }),
        _ => new == old,
    }
}

/// Whether runs only lost inherited properties.
pub open spec fn runs_inherit(
    old: Seq<Run>,
    new: Seq<Run>,
    defaults: TextDefaults,
    style: Option<RunProps>,
) -> bool {
    old.len() == new.len() && forall|i: int|
        #![trigger old[i]]
        #![trigger new[i]]
        0 <= i < old.len() ==> run_inherits(old[i], new[i], defaults, style)
}

/// Whether a paragraph child only lost inherited properties.
pub open spec fn child_inherits(
    old: ParaChild,
    new: ParaChild,
    defaults: TextDefaults,
    style: Option<RunProps>,
) -> bool {
    match old {
        ParaChild::Run(run) => new is Run && run_inherits(run, new->Run_0, defaults, style),
        ParaChild::Hyperlink { rel, anchor, runs } => {
            &&& new is Hyperlink
            &&& new->rel == rel
            &&& new->anchor == anchor
            &&& runs_inherit(runs@, new->runs@, defaults, style)
        },
        _ => new == old,
    }
}

/// The style of a level.
pub open spec fn style_at(styles: Seq<HeadingStyle>, level: u8, i: int) -> Option<HeadingStyle>
    decreases styles.len() - i,
{
    if 0 <= i < styles.len() {
        if styles[i].level == level {
            Some(styles[i])
        } else {
            style_at(styles, level, i + 1)
        }
    } else {
        None
    }
}

/// The heading style that governs a paragraph.
pub open spec fn governing(styles: Seq<HeadingStyle>, para: Para) -> Option<HeadingStyle> {
    match para_level(para) {
        Some(level) => style_at(styles, level, 0),
        None => None,
    }
}

/// Paragraph properties without what a heading style supplies.
pub open spec fn direct_para(props: ParaProps, style: HeadingStyle) -> ParaProps {
    let outline = if style.level == 0 {
        0
    } else if style.level > 9 {
        8
    } else {
        style.level - 1
    };
    ParaProps {
        keep_next: false,
        outline_lvl: if props.outline_lvl == Some(outline as u8) {
            None
        } else {
            props.outline_lvl
        },
        spacing: if props.spacing == style.spacing {
            None
        } else {
            props.spacing
        },
        ..props
    }
}

/// Whether a paragraph only lost inherited properties.
pub open spec fn para_inherits(
    old: Para,
    new: Para,
    defaults: TextDefaults,
    styles: Seq<HeadingStyle>,
) -> bool {
    let style = governing(styles, old);
    let rpr = match style {
        Some(s) => Some(s.rpr),
        None => None,
    };
    &&& new.props == (match style {
        Some(s) => direct_para(old.props, s),
        None => old.props,
    })
    &&& old.content@.len() == new.content@.len()
    &&& forall|i: int|
        #![trigger old.content@[i]]
        #![trigger new.content@[i]]
        0 <= i < old.content@.len() ==> child_inherits(
            old.content@[i],
            new.content@[i],
            defaults,
            rpr,
        )
}

fn strip_run(run: &mut Run, defaults: &TextDefaults, style: Option<&RunProps>)
    ensures
        run_inherits(
            *old(run),
            *final(run),
            *defaults,
            match style {
                Some(s) => Some(*s),
                None => None,
            },
        ),
{
    match run {
        Run::Text { props, .. } => {
            strip_props(props, defaults, style);
        }
        _ => {}
    }
}

fn strip_runs(runs: &mut Vec<Run>, defaults: &TextDefaults, style: Option<&RunProps>)
    ensures
        runs_inherit(
            old(runs)@,
            final(runs)@,
            *defaults,
            match style {
                Some(s) => Some(*s),
                None => None,
            },
        ),
{
    let ghost rpr = match style {
        Some(s) => Some(*s),
        None => None,
    };
    let n: usize = runs.len();
    let mut i: usize = 0;
    while i < n
        invariant
            i <= n,
            n == runs@.len(),
            n == old(runs)@.len(),
            rpr == (match style {
                Some(s) => Some(*s),
                None => None,
            }),
            forall|k: int| i <= k < n ==> runs@[k] == old(runs)@[k],
            forall|k: int|
                0 <= k < i ==> run_inherits(
                    old(runs)@[k],
                    #[trigger] runs@[k],
                    *defaults,
                    rpr,
                ),
        decreases n - i,
    {
        strip_run(&mut runs[i], defaults, style);
        i = i + 1;
    }
}

fn strip_child(child: &mut ParaChild, defaults: &TextDefaults, style: Option<&RunProps>)
    ensures
        child_inherits(
            *old(child),
            *final(child),
            *defaults,
            match style {
                Some(s) => Some(*s),
                None => None,
            },
        ),
{
    match child {
        ParaChild::Run(run) => {
            strip_run(run, defaults, style);
        }
        ParaChild::Hyperlink { runs, .. } => {
            strip_runs(runs, defaults, style);
        }
        _ => {}
    }
}

fn strip_content(content: &mut Vec<ParaChild>, defaults: &TextDefaults, style: Option<&RunProps>)
    ensures
        old(content)@.len() == final(content)@.len(),
        forall|i: int|
            0 <= i < old(content)@.len() ==> child_inherits(
                old(content)@[i],
                #[trigger] final(content)@[i],
                *defaults,
                match style {
                    Some(s) => Some(*s),
                    None => None,
                },
            ),
{
    let ghost rpr = match style {
        Some(s) => Some(*s),
        None => None,
    };
    let n: usize = content.len();
    let mut i: usize = 0;
    while i < n
        invariant
            i <= n,
            n == content@.len(),
            n == old(content)@.len(),
            rpr == (match style {
                Some(s) => Some(*s),
                None => None,
            }),
            forall|k: int| i <= k < n ==> content@[k] == old(content)@[k],
            forall|k: int|
                0 <= k < i ==> child_inherits(
                    old(content)@[k],
                    #[trigger] content@[k],
                    *defaults,
                    rpr,
                ),
        decreases n - i,
    {
        strip_child(&mut content[i], defaults, style);
        i = i + 1;
    }
}

fn find_style(styles: &Vec<HeadingStyle>, level: u8) -> (r: Option<usize>)
    ensures
        match r {
            Some(i) => i < styles@.len() && style_at(styles@, level, 0) == Some(styles@[i as int]),
            None => style_at(styles@, level, 0) is None,
        },
{
    let mut i: usize = 0;
    while i < styles.len()
        invariant
            i <= styles.len(),
            style_at(styles@, level, 0) == style_at(styles@, level, i as int),
        decreases styles.len() - i,
    {
        if styles[i].level == level {
            return Some(i);
        }
        i = i + 1;
    }
    None
}

fn strip_heading_paragraph(props: &mut ParaProps, style: &HeadingStyle)
    ensures
        *final(props) == direct_para(*old(props), *style),
{
    props.keep_next = false;
    let outline: u8 = if style.level == 0 {
        0
    } else if style.level > 9 {
        8
    } else {
        style.level - 1
    };
    if props.outline_lvl == Some(outline) {
        props.outline_lvl = None;
    }
    if props.spacing == style.spacing {
        props.spacing = None;
    }
}

fn strip_para(para: &mut Para, defaults: &TextDefaults, styles: &Vec<HeadingStyle>)
    ensures
        para_inherits(*old(para), *final(para), *defaults, styles@),
{
    let found: Option<usize> = match heading_level(&para.props.style) {
        Some(level) => find_style(styles, level),
        None => None,
    };
    match found {
        Some(i) => {
            assert(governing(styles@, *para) == Some(styles@[i as int]));
            strip_heading_paragraph(&mut para.props, &styles[i]);
            strip_content(&mut para.content, defaults, Some(&styles[i].rpr));
        }
        None => {
            assert(governing(styles@, *para) is None);
            strip_content(&mut para.content, defaults, None);
        }
    }
}

/// Whether a block only lost inherited properties.
pub open spec fn block_inherits(
    old: Block,
    new: Block,
    defaults: TextDefaults,
    styles: Seq<HeadingStyle>,
) -> bool {
    match old {
        Block::Para(p) => new is Para && para_inherits(p, new->Para_0, defaults, styles),
        _ => new == old,
    }
}

/// Whether every block only lost inherited properties.
pub open spec fn all_inherit(
    old: Seq<Block>,
    new: Seq<Block>,
    defaults: TextDefaults,
    styles: Seq<HeadingStyle>,
) -> bool {
    &&& new.len() == old.len()
    &&& forall|i: int|
        0 <= i < old.len() ==> block_inherits(old[i], #[trigger] new[i], defaults, styles)
}

fn strip_block(block: &mut Block, defaults: &TextDefaults, styles: &Vec<HeadingStyle>)
    ensures
        block_inherits(*old(block), *final(block), *defaults, styles@),
{
    match block {
        Block::Para(para) => {
            strip_para(para, defaults, styles);
        }
        _ => {}
    }
}

/// Strips the direct properties of the body's paragraphs that the defaults or
/// their heading style supply.
pub fn apply_style_inheritance(
    defaults: &TextDefaults,
    heading_styles: &Vec<HeadingStyle>,
    body: &mut Vec<Block>,
)
    ensures
        all_inherit(old(body)@, final(body)@, *defaults, heading_styles@),
{
    let n: usize = body.len();
    let mut i: usize = 0;
    while i < n
        invariant
            i <= n,
            n == body@.len(),
            n == old(body)@.len(),
            forall|k: int| i <= k < n ==> body@[k] == old(body)@[k],
            forall|k: int|
                0 <= k < i ==> block_inherits(
                    old(body)@[k],
                    #[trigger] body@[k],
                    *defaults,
                    heading_styles@,
                ),
        decreases n - i,
    {
        strip_block(&mut body[i], defaults, heading_styles);
        i = i + 1;
    }
}

/// The value in force for a property: the direct one, else that of the heading
/// style, else the default.
pub open spec fn in_force<T>(own: Option<T>, style: Option<T>, default: Option<T>) -> Option<T> {
    match own {
        Some(v) => Some(v),
        None => match style {
            Some(v) => Some(v),
            None => default,
        },
    }
}

/// Stripping inherited properties changes nothing that a reader sees: the font,
/// the size, the color and the language in force stay the same, and so does
/// whether the text is bold or italic.
pub proof fn stripping_keeps_formatting(
    p: RunProps,
    defaults: TextDefaults,
    style: Option<RunProps>,
)
    ensures
        ({
            let d = direct(p, defaults, style);
            let font = match style {
                Some(s) => opt_str(s.font),
                None => None,
            };
            let size = match style {
                Some(s) => s.size_half_pt,
                None => None,
            };
            let color = match style {
                Some(s) => s.color,
                None => None,
            };
            let lang = match style {
                Some(s) => opt_str(s.lang),
                None => None,
            };
            let bold = style matches Some(s) && s.bold;
            let italic = style matches Some(s) && s.italic;
            &&& in_force(opt_str(d.font), font, opt_str(defaults.font)) == in_force(
                opt_str(p.font),
                font,
                opt_str(defaults.font),
            )
            &&& in_force(d.size_half_pt, size, Some(defaults.size_half_pt)) == in_force(
                p.size_half_pt,
                size,
                Some(defaults.size_half_pt),
            )
            &&& in_force(d.color, color, defaults.color) == in_force(
                p.color,
                color,
                defaults.color,
            )
            &&& in_force(opt_str(d.lang), lang, opt_str(defaults.lang)) == in_force(
                opt_str(p.lang),
                lang,
                opt_str(defaults.lang),
            )
            &&& (d.bold || bold) == (p.bold || bold)
            &&& (d.italic || italic) == (p.italic || italic)
        }),
{
}

// ---------------------------------------------------------------------------
// Document defaults.
// ---------------------------------------------------------------------------

/// One vote for the document defaults: the properties of a text run and the
/// length of its text.
#[derive(Copy, Clone)]
pub struct Vote<'a> {
    pub props: &'a RunProps,
    pub weight: u64,
}

/// What a vote says.
pub struct Ballot {
    pub props: RunProps,
    pub weight: nat,
}

/// What votes say.
pub open spec fn ballots(votes: Seq<Vote>) -> Seq<Ballot> {
    votes.map_values(|v: Vote| Ballot { props: *v.props, weight: v.weight as nat })
}

/// The vote of one run: text that is no code, by its length.
pub open spec fn run_vote(run: Run) -> Seq<Ballot> {
    match run {
        Run::Text { props, text } => if props.no_proof {
            Seq::empty()
        } else {
            seq![
                Ballot {
                    props,
                    weight: if text@.len() == 0 {
                        1
                    } else {
                        text@.len()
                    },
                },
            ]
        },
        _ => Seq::empty(),
    }
}

/// The votes of runs.
pub open spec fn runs_votes(runs: Seq<Run>) -> Seq<Ballot>
    decreases runs.len(),
{
    if runs.len() == 0 {
        Seq::empty()
    } else {
        runs_votes(runs.drop_last()) + run_vote(runs.last())
    }
}

/// The votes of paragraph content.
pub open spec fn content_votes(content: Seq<ParaChild>) -> Seq<Ballot>
    decreases content.len(),
{
    if content.len() == 0 {
        Seq::empty()
    } else {
        content_votes(content.drop_last()) + (match content.last() {
            ParaChild::Run(run) => run_vote(run),
            ParaChild::Hyperlink { runs, .. } => runs_votes(runs@),
            _ => Seq::empty(),
        })
    }
}

/// The votes of paragraphs. Headings do not vote.
pub open spec fn paras_votes(ps: Seq<Para>) -> Seq<Ballot>
    decreases ps.len(),
{
    if ps.len() == 0 {
        Seq::empty()
    } else {
        paras_votes(ps.drop_last()) + (if para_level(ps.last()) is Some {
            Seq::empty()
        } else {
            content_votes(ps.last().content@)
        })
    }
}

fn vote_run<'a>(run: &'a Run, out: &mut Vec<Vote<'a>>)
    ensures
        ballots(final(out)@) == ballots(old(out)@) + run_vote(*run),
{
    let ghost before = ballots(out@);
    assert(before =~= before + Seq::<Ballot>::empty());
    if let Run::Text { props, text } = run {
        if !props.no_proof {
            let n: usize = text.as_str().unicode_len();
            let weight: u64 = if n == 0 {
                1
            } else {
                n as u64
            };
            out.push(Vote { props, weight });
            assert(ballots(out@) =~= before + run_vote(*run));
        }
    }
}

fn vote_runs<'a>(runs: &'a Vec<Run>, out: &mut Vec<Vote<'a>>)
    ensures
        ballots(final(out)@) == ballots(old(out)@) + runs_votes(runs@),
{
    let mut i: usize = 0;
    assert(ballots(out@) =~= ballots(old(out)@) + runs_votes(runs@.take(0)));
    while i < runs.len()
        invariant
            i <= runs.len(),
            ballots(out@) == ballots(old(out)@) + runs_votes(runs@.take(i as int)),
        decreases runs.len() - i,
    {
        assert(runs@.take(i + 1).drop_last() =~= runs@.take(i as int));
        vote_run(&runs[i], out);
        assert(ballots(out@) =~= ballots(old(out)@) + runs_votes(runs@.take(i + 1)));
        i = i + 1;
    }
    assert(runs@.take(i as int) =~= runs@);
}

fn vote_content<'a>(content: &'a Vec<ParaChild>, out: &mut Vec<Vote<'a>>)
    ensures
        ballots(final(out)@) == ballots(old(out)@) + content_votes(content@),
{
    let mut i: usize = 0;
    assert(ballots(out@) =~= ballots(old(out)@) + content_votes(content@.take(0)));
    while i < content.len()
        invariant
            i <= content.len(),
            ballots(out@) == ballots(old(out)@) + content_votes(content@.take(i as int)),
        decreases content.len() - i,
    {
        assert(content@.take(i + 1).drop_last() =~= content@.take(i as int));
        match &content[i] {
            ParaChild::Run(run) => {
                vote_run(run, out);
            }
            ParaChild::Hyperlink { runs, .. } => {
                vote_runs(runs, out);
            }
            _ => {}
        }
        assert(ballots(out@) =~= ballots(old(out)@) + content_votes(content@.take(i + 1)));
        i = i + 1;
    }
    assert(content@.take(i as int) =~= content@);
}

/// Collects the votes of body prose: the text runs of all paragraphs, also in
/// tables, but for headings and code.
pub fn collect_default_votes<'a>(blocks: &'a Vec<Block>) -> (votes: Vec<Vote<'a>>)
    ensures
        ballots(votes@) == paras_votes(paras(blocks@)),
{
    let mut ps: Vec<&'a Para> = Vec::new();
    collect_paras(blocks, &mut ps);
    assert(targets(ps@) =~= paras(blocks@));
    let mut out: Vec<Vote<'a>> = Vec::new();
    let mut i: usize = 0;
    assert(ballots(out@) =~= paras_votes(targets(ps@).take(0)));
    while i < ps.len()
        invariant
            i <= ps.len(),
            ballots(out@) == paras_votes(targets(ps@).take(i as int)),
        decreases ps.len() - i,
    {
        let ghost all = targets(ps@);
        assert(all.take(i + 1).drop_last() =~= all.take(i as int));
        assert(all.take(i + 1).last() == *ps@[i as int]);
        let ghost before = ballots(out@);
        assert(before =~= before + Seq::<Ballot>::empty());
        let para: &'a Para = ps[i];
        if heading_level(&para.props.style).is_none() {
            vote_content(&para.content, &mut out);
        }
        i = i + 1;
    }
    assert(targets(ps@).take(i as int) =~= targets(ps@));
    out
}

/// The votes that name a value of the property with the given keys; the key of
/// an absent value is a single zero.
pub open spec fn cast(votes: Seq<Ballot>, key: spec_fn(RunProps) -> Seq<u32>) -> (
    Seq<Seq<u32>>,
    Seq<u64>,
)
    decreases votes.len(),
{
    if votes.len() == 0 {
        (Seq::empty(), Seq::empty())
    } else {
        let (keys, weights) = cast(votes.drop_last(), key);
        let k = key(votes.last().props);
        if k == seq![0u32] {
            (keys, weights)
        } else {
            (keys.push(k), weights.push(votes.last().weight as u64))
        }
    }
}

/// Whether `key` is the strict winner among the votes for a property, or the
/// fallback's key when there is no strict winner.
pub open spec fn elected(
    votes: Seq<Ballot>,
    key: spec_fn(RunProps) -> Seq<u32>,
    result: Seq<u32>,
    fallback: Seq<u32>,
) -> bool {
    let (keys, weights) = cast(votes, key);
    if exists|i: int| 0 <= i < keys.len() && wins(keys, weights, #[trigger] keys[i]) {
        wins(keys, weights, result)
    } else {
        result == fallback
    }
}

/// Which property a vote is about.
#[derive(Copy, Clone, PartialEq, Eq, Structural)]
enum Property {
    Font,
    Size,
    Color,
    Lang,
}

spec fn property_key(property: Property, p: RunProps) -> Seq<u32> {
    match property {
        Property::Font => text_key(opt_str(p.font)),
        Property::Size => number_key(p.size_half_pt),
        Property::Color => color_key(p.color),
        Property::Lang => text_key(opt_str(p.lang)),
    }
}

fn make_property_key(property: Property, p: &RunProps) -> (r: Vec<u32>)
    ensures
        r@ == property_key(property, *p),
        r@.len() >= 1,
{
    match property {
        Property::Font => make_text_key(&p.font),
        Property::Size => make_number_key(p.size_half_pt),
        Property::Color => make_color_key(p.color),
        Property::Lang => make_text_key(&p.lang),
    }
}

/// The index of a vote for the strict winner of a property.
fn elect(votes: &Vec<Vote>, property: Property) -> (r: Option<usize>)
    ensures
        ({
            let key = |p: RunProps| property_key(property, p);
            let (keys, weights) = cast(ballots(votes@), key);
            match r {
                Some(i) => i < votes@.len() && wins(keys, weights, key(*votes@[i as int].props)),
                None => forall|i: int|
                    0 <= i < keys.len() ==> !wins(keys, weights, #[trigger] keys[i]),
            }
        }),
{
    let ghost key = |p: RunProps| property_key(property, p);
    let mut keys: Vec<Vec<u32>> = Vec::new();
    let mut weights: Vec<u64> = Vec::new();
    let mut index: Vec<usize> = Vec::new();
    let mut i: usize = 0;
    while i < votes.len()
        invariant
            i <= votes.len(),
            key == (|p: RunProps| property_key(property, p)),
            keys_view(keys@) =~= cast(ballots(votes@).take(i as int), key).0,
            weights@ =~= cast(ballots(votes@).take(i as int), key).1,
            keys@.len() == weights@.len(),
            keys@.len() == index@.len(),
            forall|k: int|
                0 <= k < index@.len() ==> (#[trigger] index@[k]) < votes@.len() && keys@[k]@ == key(
                    *votes@[index@[k] as int].props,
                ),
        decreases votes.len() - i,
    {
        let ghost all = ballots(votes@);
        assert(all.take(i + 1).drop_last() =~= all.take(i as int));
        assert(all.take(i + 1).last() == all[i as int]);
        let k: Vec<u32> = make_property_key(property, votes[i].props);
        let absent: bool = k.len() == 1 && k[0] == 0;
        proof {
            if absent {
                assert(k@ =~= seq![0u32]);
            } else {
                assert(k@ != seq![0u32]) by {
                    if k@ == seq![0u32] {
                        assert(k@.len() == 1 && k@[0] == 0);
                    }
                }
            }
        }
        if !absent {
            let ghost prior = keys@;
            keys.push(k);
            weights.push(votes[i].weight);
            index.push(i);
            assert(keys_view(keys@) =~= keys_view(prior).push(k@));
        }
        i = i + 1;
    }
    assert(ballots(votes@).take(i as int) =~= ballots(votes@));
    match weighted_mode(&keys, &weights) {
        Some(at) => {
            assert(keys_view(keys@)[at as int] == keys@[at as int]@);
            Some(index[at])
        },
        None => {
            assert(keys_view(keys@).len() == keys@.len());
            None
        },
    }
}

/// Whether `r` holds, per property, the value with the most text behind it, or
/// the fallback where no value wins strictly.
pub open spec fn are_voted(r: TextDefaults, votes: Seq<Ballot>, fallback: TextDefaults) -> bool {
    &&& elected(
        votes,
        |p: RunProps| text_key(opt_str(p.font)),
        text_key(opt_str(r.font)),
        text_key(opt_str(fallback.font)),
    )
    &&& elected(
        votes,
        |p: RunProps| number_key(p.size_half_pt),
        number_key(Some(r.size_half_pt)),
        number_key(Some(fallback.size_half_pt)),
    )
    &&& elected(
        votes,
        |p: RunProps| color_key(p.color),
        color_key(r.color),
        color_key(fallback.color),
    )
    &&& elected(
        votes,
        |p: RunProps| text_key(opt_str(p.lang)),
        text_key(opt_str(r.lang)),
        text_key(opt_str(fallback.lang)),
    )
}

/// Decides the document defaults: per property the value with the most text
/// behind it, or the fallback where no value wins strictly.
pub fn vote_text_defaults(body: &Vec<Block>, fallback: &TextDefaults) -> (r: TextDefaults)
    ensures
        are_voted(r, paras_votes(paras(body@)), *fallback),
{
    let votes: Vec<Vote> = collect_default_votes(body);
    let ghost b = ballots(votes@);
    let font: Option<String> = match elect(&votes, Property::Font) {
        Some(i) => copy_text(&votes[i].props.font),
        None => copy_text(&fallback.font),
    };
    assert((|p: RunProps| property_key(Property::Font, p)) =~= (|p: RunProps|
        text_key(opt_str(p.font))));
    let size_half_pt: u32 = match elect(&votes, Property::Size) {
        Some(i) => match votes[i].props.size_half_pt {
            Some(n) => n,
            None => {
                proof {
                    let key = |p: RunProps| property_key(Property::Size, p);
                    lemma_winner_present(b, key, number_key(None));
                }
                fallback.size_half_pt
            },
        },
        None => fallback.size_half_pt,
    };
    assert((|p: RunProps| property_key(Property::Size, p)) =~= (|p: RunProps|
        number_key(p.size_half_pt)));
    let color: Option<[u8; 3]> = match elect(&votes, Property::Color) {
        Some(i) => votes[i].props.color,
        None => fallback.color,
    };
    assert((|p: RunProps| property_key(Property::Color, p)) =~= (|p: RunProps|
        color_key(p.color)));
    let lang: Option<String> = match elect(&votes, Property::Lang) {
        Some(i) => copy_text(&votes[i].props.lang),
        None => copy_text(&fallback.lang),
    };
    assert((|p: RunProps| property_key(Property::Lang, p)) =~= (|p: RunProps|
        text_key(opt_str(p.lang))));
    proof {
        lemma_elected_from_none(
            b,
            |p: RunProps| text_key(opt_str(p.font)),
            text_key(opt_str(font)),
        );
        lemma_elected_from_none(
            b,
            |p: RunProps| number_key(p.size_half_pt),
            number_key(Some(size_half_pt)),
        );
        lemma_elected_from_none(b, |p: RunProps| color_key(p.color), color_key(color));
        lemma_elected_from_none(
            b,
            |p: RunProps| text_key(opt_str(p.lang)),
            text_key(opt_str(lang)),
        );
    }
    TextDefaults { font, size_half_pt, color, lang }
}

/// The key of an absent value never wins.
proof fn lemma_winner_present(
    votes: Seq<Ballot>,
    key: spec_fn(RunProps) -> Seq<u32>,
    winner: Seq<u32>,
)
    requires
        wins(cast(votes, key).0, cast(votes, key).1, winner),
    ensures
        winner != seq![0u32],
{
    lemma_cast_present(votes, key);
}

proof fn lemma_cast_present(votes: Seq<Ballot>, key: spec_fn(RunProps) -> Seq<u32>)
    ensures
        forall|i: int|
            0 <= i < cast(votes, key).0.len() ==> #[trigger] cast(votes, key).0[i] != seq![0u32],
    decreases votes.len(),
{
    if votes.len() > 0 {
        lemma_cast_present(votes.drop_last(), key);
        let before = cast(votes.drop_last(), key).0;
        let after = cast(votes, key).0;
        assert forall|i: int| 0 <= i < after.len() implies #[trigger] after[i] != seq![0u32] by {
            if i < before.len() {
                assert(after[i] == before[i]);
            }
        }
    }
}

/// A winner is one of the keys that were cast.
proof fn lemma_elected_from_none(
    votes: Seq<Ballot>,
    key: spec_fn(RunProps) -> Seq<u32>,
    result: Seq<u32>,
)
    ensures
        wins(cast(votes, key).0, cast(votes, key).1, result) ==> exists|i: int|
            0 <= i < cast(votes, key).0.len() && wins(
                cast(votes, key).0,
                cast(votes, key).1,
                #[trigger] cast(votes, key).0[i],
            ),
{
    let (keys, weights) = cast(votes, key);
    if wins(keys, weights, result) {
        let i = choose|i: int| 0 <= i < keys.len() && keys[i] == result;
        assert(wins(keys, weights, keys[i]));
    }
}

} // verus!
